//! Display names: turning a label into text that is safe in a file name.

use crate::text::{chars_of, string_from_chars};
use vstd::prelude::*;

verus! {

/// The characters that a name keeps: ASCII letters, ASCII digits and `.`.
pub open spec fn is_kept(c: char) -> bool {
    ||| 'a' <= c <= 'z'
    ||| 'A' <= c <= 'Z'
    ||| '0' <= c <= '9'
    ||| c == '.'
}

/// The name made from a label: its runs of kept characters, joined by
/// single spaces. Every other character, a space too, only separates.
pub open spec fn sanitized(label: Seq<char>) -> Seq<char>
    decreases label.len(),
{
    if label.len() == 0 {
        label
    } else {
        let before = sanitized(label.drop_last());
        let c = label.last();
        if !is_kept(c) {
            before
        } else if before.len() > 0 && !is_kept(label[label.len() - 2]) {
            before.push(' ').push(c)
        } else {
            before.push(c)
        }
    }
}

/// A text of kept characters and single spaces that neither begins nor ends
/// with a space.
pub open spec fn is_clean(name: Seq<char>) -> bool {
    &&& forall|i: int| 0 <= i < name.len() ==> is_kept(#[trigger] name[i]) || name[i] == ' '
    &&& forall|i: int| 0 <= i < name.len() - 1 ==> !(#[trigger] name[i] == ' ' && name[i + 1] == ' ')
    &&& name.len() > 0 ==> name[0] != ' ' && name.last() != ' '
}

/// Makes a name from a label: keeps ASCII letters, digits and `.`, and puts
/// one space wherever other characters stood between two kept ones.
pub fn remove_unknown_chars(s: &str) -> (name: String)
    ensures
        name@ == sanitized(s@),
{
    let label = chars_of(s);
    let mut out: Vec<char> = Vec::new();
    let mut gap: bool = false;
    let mut i: usize = 0;
    proof {
        assert(label@.take(0) =~= Seq::empty());
    }
    while i < label.len()
        invariant
            i <= label@.len(),
            out@ == sanitized(label@.take(i as int)),
            gap == (i > 0 && !is_kept(label@[i - 1])),
        decreases label@.len() - i,
    {
        let c = label[i];
        proof {
            assert(label@.take(i + 1).drop_last() =~= label@.take(i as int));
            assert(label@.take(i + 1).last() == c);
            if i > 0 {
                assert(label@.take(i + 1)[i - 1] == label@[i - 1]);
            }
        }
        let kept = ('a' <= c && c <= 'z') || ('A' <= c && c <= 'Z') || ('0' <= c && c <= '9') || c
            == '.';
        if kept {
            if gap && out.len() > 0 {
                out.push(' ');
            }
            out.push(c);
        }
        gap = !kept;
        i += 1;
    }
    assert(label@.take(i as int) =~= label@);
    string_from_chars(&out)
}

/// A sanitized name ends with a kept character, unless it is empty.
proof fn lemma_sanitized_ends_kept(label: Seq<char>)
    ensures
        sanitized(label).len() > 0 ==> is_kept(sanitized(label).last()),
    decreases label.len(),
{
    if label.len() > 0 {
        lemma_sanitized_ends_kept(label.drop_last());
    }
}

/// A sanitized name holds only ASCII letters, digits, `.` and single
/// spaces, and neither begins nor ends with a space.
pub proof fn lemma_sanitized_is_clean(label: Seq<char>)
    ensures
        is_clean(sanitized(label)),
    decreases label.len(),
{
    if label.len() > 0 {
        let before = sanitized(label.drop_last());
        lemma_sanitized_is_clean(label.drop_last());
        lemma_sanitized_ends_kept(label.drop_last());
        let name = sanitized(label);
        assert forall|i: int| 0 <= i < name.len() - 1 implies !(#[trigger] name[i] == ' ' && name[i
            + 1] == ' ') by {
            if i < before.len() - 1 {
                assert(name[i] == before[i]);
                assert(name[i + 1] == before[i + 1]);
            }
        }
        assert forall|i: int| 0 <= i < name.len() implies is_kept(#[trigger] name[i]) || name[i]
            == ' ' by {
            if i < before.len() {
                assert(name[i] == before[i]);
            }
        }
        if name.len() > 0 && before.len() > 0 {
            assert(name[0] == before[0]);
        }
    }
}

/// Sanitizing leaves a clean text as it is.
pub proof fn lemma_clean_is_fixed(name: Seq<char>)
    requires
        is_clean(name),
    ensures
        sanitized(name) == name,
    decreases name.len(),
{
    if name.len() > 0 {
        let init = name.drop_last();
        let c = name.last();
        assert(is_kept(c));
        if init.len() == 0 {
            assert(sanitized(init) =~= init);
            assert(sanitized(name) =~= name);
        } else if is_kept(init.last()) {
            assert(is_clean(init)) by {
                assert forall|i: int| 0 <= i < init.len() implies is_kept(#[trigger] init[i])
                    || init[i] == ' ' by {
                    assert(init[i] == name[i]);
                }
                assert forall|i: int| 0 <= i < init.len() - 1 implies !(#[trigger] init[i] == ' '
                    && init[i + 1] == ' ') by {
                    assert(init[i] == name[i]);
                    assert(init[i + 1] == name[i + 1]);
                }
                assert(init[0] == name[0]);
            }
            lemma_clean_is_fixed(init);
            assert(name[name.len() - 2] == init.last());
            assert(sanitized(name) =~= name);
        } else {
            // `init` ends with a single space that follows a kept character.
            assert(init.last() == name[name.len() - 2]);
            assert(init.last() == ' ');
            assert(init.len() >= 2) by {
                if init.len() == 1 {
                    assert(name[0] == init[0]);
                }
            }
            let core = init.drop_last();
            assert(core.last() == name[name.len() - 3]);
            assert(core.last() != ' ') by {
                assert(!(name[name.len() - 3] == ' ' && name[name.len() - 3 + 1] == ' '));
            }
            assert(is_clean(core)) by {
                assert forall|i: int| 0 <= i < core.len() implies is_kept(#[trigger] core[i])
                    || core[i] == ' ' by {
                    assert(core[i] == name[i]);
                }
                assert forall|i: int| 0 <= i < core.len() - 1 implies !(#[trigger] core[i] == ' '
                    && core[i + 1] == ' ') by {
                    assert(core[i] == name[i]);
                    assert(core[i + 1] == name[i + 1]);
                }
                assert(core[0] == name[0]);
            }
            lemma_clean_is_fixed(core);
            assert(sanitized(init) == sanitized(core));
            assert(sanitized(name) =~= name);
        }
    }
}

/// Sanitizing twice gives what sanitizing once gives.
pub proof fn lemma_sanitized_idempotent(label: Seq<char>)
    ensures
        sanitized(sanitized(label)) == sanitized(label),
{
    lemma_sanitized_is_clean(label);
    lemma_clean_is_fixed(sanitized(label));
}

} // verus!
