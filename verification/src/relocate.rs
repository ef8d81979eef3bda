//! Destination names for relocated duplicates.
//!
//! A duplicate is copied into the destination directory under its own file
//! name. When that name is taken, numbered variants are tried in turn:
//! `photo.jpg`, `photo_1.jpg`, `photo_2.jpg`, ... This module decides which
//! name to try next; probing the directory and copying are left to the caller.

use crate::matcher::{pairs_view, PairView, SimilarPair};
use crate::views::strings_view;
use vstd::prelude::*;
use vstd::string::*;

verus! {

/// The position of the last `.` in `name`, or `-1` when there is none.
pub open spec fn last_dot(name: Seq<char>) -> int
    decreases name.len(),
{
    if name.len() == 0 {
        -1
    } else if name.last() == '.' {
        name.len() - 1
    } else {
        last_dot(name.drop_last())
    }
}

/// The part of `name` before its last `.`; `file` when `name` has no `.`.
pub open spec fn stem_of(name: Seq<char>) -> Seq<char> {
    if last_dot(name) < 0 {
        seq!['f', 'i', 'l', 'e']
    } else {
        name.subrange(0, last_dot(name))
    }
}

/// The part of `name` after its last `.`; `png` when `name` has no `.`.
pub open spec fn extension_of(name: Seq<char>) -> Seq<char> {
    if last_dot(name) < 0 {
        seq!['p', 'n', 'g']
    } else {
        name.subrange(last_dot(name) + 1, name.len() as int)
    }
}

/// The character that writes the decimal digit `d`.
pub open spec fn digit_char(d: nat) -> char {
    if d == 0 {
        '0'
    } else if d == 1 {
        '1'
    } else if d == 2 {
        '2'
    } else if d == 3 {
        '3'
    } else if d == 4 {
        '4'
    } else if d == 5 {
        '5'
    } else if d == 6 {
        '6'
    } else if d == 7 {
        '7'
    } else if d == 8 {
        '8'
    } else {
        '9'
    }
}

/// `n` written in decimal, without leading zeros.
pub open spec fn decimal(n: nat) -> Seq<char>
    decreases n,
{
    if n < 10 {
        seq![digit_char(n)]
    } else {
        decimal(n / 10).push(digit_char(n % 10))
    }
}

/// The `counter`-th numbered variant of `name`: stem, `_`, the counter in
/// decimal, `.`, extension.
pub open spec fn numbered(name: Seq<char>, counter: nat) -> Seq<char> {
    stem_of(name) + seq!['_'] + decimal(counter) + seq!['.'] + extension_of(name)
}

/// The name tried at the given attempt: the name itself first, then its
/// numbered variants from 1 upwards.
pub open spec fn candidate(name: Seq<char>, attempt: nat) -> Seq<char> {
    if attempt == 0 {
        name
    } else {
        numbered(name, attempt)
    }
}

/// `last_dot` is a position of a `.` with no `.` after it, or `-1` when the
/// name holds none.
pub proof fn lemma_last_dot(name: Seq<char>)
    ensures
        -1 <= last_dot(name) < name.len(),
        last_dot(name) >= 0 ==> name[last_dot(name)] == '.',
        forall|k: int| last_dot(name) < k < name.len() ==> name[k] != '.',
    decreases name.len(),
{
    if name.len() > 0 && name.last() != '.' {
        let shorter = name.drop_last();
        lemma_last_dot(shorter);
        assert forall|k: int| last_dot(name) < k < name.len() implies name[k] != '.' by {
            if k < shorter.len() {
                assert(shorter[k] == name[k]);
            }
        }
    }
}

/// A name that holds no `.` from position `end` on has its last dot where
/// its first `end` characters have theirs.
proof fn lemma_last_dot_prefix(name: Seq<char>, end: int)
    requires
        0 <= end <= name.len(),
        forall|k: int| end <= k < name.len() ==> name[k] != '.',
    ensures
        last_dot(name) == last_dot(name.subrange(0, end)),
    decreases name.len() - end,
{
    if end < name.len() {
        assert(name.drop_last().subrange(0, end) =~= name.subrange(0, end));
        lemma_last_dot_prefix(name.drop_last(), end);
    } else {
        assert(name.subrange(0, end) =~= name);
    }
}

/// Different numbers are written differently.
pub proof fn lemma_decimal_injective(a: nat, b: nat)
    requires
        decimal(a) == decimal(b),
    ensures
        a == b,
    decreases a,
{
    if a < 10 && b < 10 {
        assert(decimal(a)[0] == digit_char(a));
        assert(decimal(b)[0] == digit_char(b));
    } else if a < 10 {
        assert(decimal(b).len() == decimal(b / 10).len() + 1);
        lemma_decimal_not_empty(b / 10);
    } else if b < 10 {
        assert(decimal(a).len() == decimal(a / 10).len() + 1);
        lemma_decimal_not_empty(a / 10);
    } else {
        assert(decimal(a).last() == digit_char(a % 10));
        assert(decimal(b).last() == digit_char(b % 10));
        assert(decimal(a).drop_last() =~= decimal(a / 10));
        assert(decimal(b).drop_last() =~= decimal(b / 10));
        lemma_decimal_injective(a / 10, b / 10);
        assert(a % 10 == b % 10);
    }
}

proof fn lemma_decimal_not_empty(n: nat)
    ensures
        decimal(n).len() >= 1,
    decreases n,
{
    if n >= 10 {
        lemma_decimal_not_empty(n / 10);
    }
}

/// The search for a free name never tries a name twice: different attempts
/// give different candidates.
pub proof fn lemma_candidates_differ(name: Seq<char>, a: nat, b: nat)
    requires
        a != b,
    ensures
        candidate(name, a) != candidate(name, b),
{
    let head = stem_of(name) + seq!['_'];
    let tail = seq!['.'] + extension_of(name);
    lemma_last_dot(name);
    if a != 0 && b != 0 {
        if numbered(name, a) == numbered(name, b) {
            assert(numbered(name, a) =~= head + decimal(a) + tail);
            assert(numbered(name, b) =~= head + decimal(b) + tail);
            assert(decimal(a).len() == decimal(b).len());
            assert forall|i: int| 0 <= i < decimal(a).len() implies decimal(a)[i] == decimal(
                b,
            )[i] by {
                assert(numbered(name, a)[head.len() + i] == decimal(a)[i]);
                assert(numbered(name, b)[head.len() + i] == decimal(b)[i]);
            }
            assert(decimal(a) =~= decimal(b));
            lemma_decimal_injective(a, b);
        }
    } else {
        let n = if a == 0 {
            b
        } else {
            a
        };
        let other = numbered(name, n);
        lemma_decimal_not_empty(n);
        assert(other =~= head + decimal(n) + tail);
        if last_dot(name) < 0 {
            let at = head.len() + decimal(n).len();
            assert(other[at as int] == '.');
            if other == name {
                assert(name[at as int] != '.');
            }
        } else {
            assert(other.len() > name.len());
        }
    }
}

/// Splits a file name at its last `.` into stem and extension.
///
/// A name without a `.` has the stem `file` and the extension `png`.
pub fn split_name(file_name: &str) -> (parts: (String, String))
    ensures
        parts.0@ == stem_of(file_name@),
        parts.1@ == extension_of(file_name@),
{
    let len = file_name.unicode_len();
    let mut end: usize = len;
    while end > 0 && file_name.get_char(end - 1) != '.'
        invariant
            end <= len,
            len == file_name@.len(),
            forall|k: int| end <= k < len ==> file_name@[k] != '.',
        decreases end,
    {
        end = end - 1;
    }
    proof {
        lemma_last_dot_prefix(file_name@, end as int);
        if end > 0 {
            assert(file_name@.subrange(0, end as int).last() == '.');
        }
    }
    if end == 0 {
        proof {
            reveal_strlit("file");
            reveal_strlit("png");
            assert("file"@ =~= seq!['f', 'i', 'l', 'e']);
            assert("png"@ =~= seq!['p', 'n', 'g']);
        }
        (String::from_str("file"), String::from_str("png"))
    } else {
        let stem = file_name.substring_char(0, end - 1);
        let extension = file_name.substring_char(end, len);
        (String::from_str(stem), String::from_str(extension))
    }
}

/// The one-character string that writes the decimal digit `d`.
fn digit_str(d: u64) -> (s: &'static str)
    requires
        d < 10,
    ensures
        s@ == seq![digit_char(d as nat)],
{
    proof {
        reveal_strlit("0");
        reveal_strlit("1");
        reveal_strlit("2");
        reveal_strlit("3");
        reveal_strlit("4");
        reveal_strlit("5");
        reveal_strlit("6");
        reveal_strlit("7");
        reveal_strlit("8");
        reveal_strlit("9");
    }
    let s = if d == 0 {
        "0"
    } else if d == 1 {
        "1"
    } else if d == 2 {
        "2"
    } else if d == 3 {
        "3"
    } else if d == 4 {
        "4"
    } else if d == 5 {
        "5"
    } else if d == 6 {
        "6"
    } else if d == 7 {
        "7"
    } else if d == 8 {
        "8"
    } else {
        "9"
    };
    assert(s@ =~= seq![digit_char(d as nat)]);
    s
}

/// Writes `n` in decimal.
pub fn decimal_string(n: u64) -> (s: String)
    ensures
        s@ == decimal(n as nat),
{
    let mut out = String::from_str(digit_str(n % 10));
    let mut rest: u64 = n / 10;
    assert(rest == 0 ==> out@ =~= decimal(n as nat));
    assert(rest > 0 ==> decimal(n as nat) =~= decimal(rest as nat) + out@);
    while rest > 0
        invariant
            rest > 0 ==> decimal(n as nat) == decimal(rest as nat) + out@,
            rest == 0 ==> decimal(n as nat) == out@,
        decreases rest,
    {
        let mut longer = String::from_str(digit_str(rest % 10));
        longer.append(out.as_str());
        proof {
            let d = seq![digit_char((rest % 10) as nat)];
            if rest >= 10 {
                assert(decimal(rest as nat) =~= decimal((rest / 10) as nat) + d);
                assert(decimal(n as nat) =~= decimal((rest / 10) as nat) + longer@);
            } else {
                assert(decimal(rest as nat) =~= d);
            }
        }
        out = longer;
        rest = rest / 10;
    }
    out
}

/// The `counter`-th numbered variant of `file_name`.
pub fn numbered_name(file_name: &str, counter: u64) -> (name: String)
    ensures
        name@ == numbered(file_name@, counter as nat),
{
    let (stem, extension) = split_name(file_name);
    let digits = decimal_string(counter);
    proof {
        reveal_strlit("_");
        reveal_strlit(".");
        assert("_"@ =~= seq!['_']);
        assert("."@ =~= seq!['.']);
    }
    let mut name = stem;
    name.append("_");
    name.append(digits.as_str());
    name.append(".");
    name.append(extension.as_str());
    name
}

/// The name tried at the given attempt for `file_name`.
pub fn candidate_name(file_name: &str, attempt: u64) -> (name: String)
    ensures
        name@ == candidate(file_name@, attempt as nat),
{
    if attempt == 0 {
        String::from_str(file_name)
    } else {
        numbered_name(file_name, attempt)
    }
}

/// The files to relocate for a list of pairs: both paths of each pair, the
/// first path first, pair after pair. A file named by several pairs is
/// listed once for each.
pub open spec fn paths_of(pairs: Seq<PairView>) -> Seq<Seq<char>> {
    Seq::new(
        2 * pairs.len(),
        |k: int|
            if k % 2 == 0 {
                pairs[k / 2].path_a
            } else {
                pairs[k / 2].path_b
            },
    )
}

/// Lists the files to relocate for the given pairs.
pub fn relocation_sources(pairs: &Vec<SimilarPair>) -> (paths: Vec<String>)
    ensures
        strings_view(paths@) == paths_of(pairs_view(pairs@)),
{
    let mut paths: Vec<String> = Vec::new();
    let mut k: usize = 0;
    while k < pairs.len()
        invariant
            k <= pairs.len(),
            paths@.len() == 2 * k,
            forall|m: int|
                0 <= m < 2 * k ==> (#[trigger] paths@[m])@ == paths_of(pairs_view(pairs@))[m],
        decreases pairs.len() - k,
    {
        paths.push(pairs[k].path_a.clone());
        paths.push(pairs[k].path_b.clone());
        k = k + 1;
    }
    assert(strings_view(paths@) =~= paths_of(pairs_view(pairs@)));
    paths
}

/// What the relocator does next for one file.
#[derive(Debug)]
pub enum RelocationStep {
    /// Find out whether `candidate` is taken in the destination directory,
    /// and report back with `next_step`.
    Probe { attempt: u64, candidate: String },
    /// Copy the file into the destination directory under `name`.
    CopyAs { name: String },
    /// Every name has been tried.
    GiveUp,
}

/// The first step for a file: probe its own name.
pub fn first_step(file_name: &str) -> (step: RelocationStep)
    ensures
        step matches RelocationStep::Probe { attempt, candidate } && attempt == 0 && candidate@
            == file_name@,
{
    RelocationStep::Probe { attempt: 0, candidate: candidate_name(file_name, 0) }
}

/// The step after a probe of the name tried at `attempt`.
///
/// A free name is copied to. A taken name leads to a probe of the next
/// numbered variant, as long as the attempt counter can still grow.
pub fn next_step(file_name: &str, attempt: u64, taken: bool) -> (step: RelocationStep)
    ensures
        !taken ==> (step matches RelocationStep::CopyAs { name } && name@ == candidate(
            file_name@,
            attempt as nat,
        )),
        taken && attempt < u64::MAX ==> (step matches RelocationStep::Probe {
            attempt: next,
            candidate: tried,
        } && next == attempt + 1 && tried@ == candidate(file_name@, (attempt + 1) as nat)),
        taken && attempt == u64::MAX ==> step is GiveUp,
{
    if !taken {
        RelocationStep::CopyAs { name: candidate_name(file_name, attempt) }
    } else if attempt < u64::MAX {
        RelocationStep::Probe {
            attempt: attempt + 1,
            candidate: candidate_name(file_name, attempt + 1),
        }
    } else {
        RelocationStep::GiveUp
    }
}

} // verus!
