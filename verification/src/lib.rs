//! Conversion core for a hierarchical 3D-scene interchange format into a
//! skeletal-animation export format: a typed object graph with hierarchy and
//! property-drive edges, a per-frame animation curve evaluator, and the
//! bookkeeping that assembles bones and triangles for export.

use vstd::prelude::*;

pub mod animation;
pub mod convert;
pub mod error;
pub mod files;
pub mod fixed;
pub mod node;
pub mod simple;
pub mod smd;
pub mod task;
pub mod value;

pub use crate::simple::SimpleFbx;
pub use crate::node::{Node, RawFbx};

use vstd::string::StrSliceExecFns;
use vstd::string::StringExecFns;

verus! {

/// The position of the first name-separator marker, if any.
pub open spec fn spec_first_sep(s: Seq<char>) -> Option<int>
    decreases s.len(),
{
    if s.len() < 2 {
        None
    } else if s[0] == '\u{0}' && s[1] == '\u{1}' {
        Some(0int)
    } else {
        match spec_first_sep(s.drop_first()) {
            Some(i) => Some(i + 1),
            None => None,
        }
    }
}

/// A raw name cut at every separator marker, in reading order. The result
/// always holds at least one segment.
pub open spec fn spec_split_name(s: Seq<char>) -> Seq<Seq<char>>
    decreases s.len(),
{
    match spec_first_sep(s) {
        None => seq![s],
        Some(i) => if 0 <= i && i + 2 <= s.len() {
            seq![s.take(i)] + spec_split_name(s.skip(i + 2))
        } else {
            seq![s]
        },
    }
}

/// Segments joined back to front with `"::"` between them.
pub open spec fn spec_join_rev(parts: Seq<Seq<char>>) -> Seq<char>
    decreases parts.len(),
{
    if parts.len() == 0 {
        Seq::empty()
    } else if parts.len() == 1 {
        parts[0]
    } else {
        parts.last() + "::"@ + spec_join_rev(parts.drop_last())
    }
}

/// The friendly reading of a raw name: its segments back to front, joined
/// with `"::"`.
pub open spec fn spec_friendly_name(s: Seq<char>) -> Seq<char> {
    spec_join_rev(spec_split_name(s))
}

/// The identifier reading of a raw name: everything before the first
/// separator marker.
pub open spec fn spec_id_name(s: Seq<char>) -> Seq<char> {
    match spec_first_sep(s) {
        Some(i) => s.take(i),
        None => s,
    }
}

/// What `spec_first_sep` returns is a well-formed first match.
proof fn lemma_first_sep_props(s: Seq<char>)
    ensures
        match spec_first_sep(s) {
            Some(i) => 0 <= i && i + 2 <= s.len() && s[i] == '\u{0}' && s[i + 1] == '\u{1}',
            None => true,
        },
    decreases s.len(),
{
    if s.len() >= 2 && !(s[0] == '\u{0}' && s[1] == '\u{1}') {
        lemma_first_sep_props(s.drop_first());
        match spec_first_sep(s.drop_first()) {
            Some(i) => {
                assert(s.drop_first()[i] == s[i + 1]);
                assert(s.drop_first()[i + 1] == s[i + 2]);
            },
            None => {},
        }
    }
}

/// One step of the suffix recursion behind `spec_first_sep`.
proof fn lemma_first_sep_step(s: Seq<char>, i: int)
    requires
        0 <= i,
        i + 2 <= s.len(),
    ensures
        spec_first_sep(s.skip(i)) == if s[i] == '\u{0}' && s[i + 1] == '\u{1}' {
            Some(0int)
        } else {
            match spec_first_sep(s.skip(i + 1)) {
                Some(k) => Some(k + 1),
                None => None::<int>,
            }
        },
{
    assert(s.skip(i).len() >= 2);
    assert(s.skip(i)[0] == s[i]);
    assert(s.skip(i)[1] == s[i + 1]);
    assert(s.skip(i).drop_first() =~= s.skip(i + 1));
}

/// Joining one more segment on the front lands it at the back of the
/// friendly reading.
proof fn lemma_join_rev_cons(head: Seq<char>, parts: Seq<Seq<char>>)
    requires
        parts.len() >= 1,
    ensures
        spec_join_rev(seq![head] + parts) == spec_join_rev(parts) + "::"@ + head,
    decreases parts.len(),
{
    let whole = seq![head] + parts;
    assert(whole.len() == parts.len() + 1);
    if parts.len() == 1 {
        assert(whole.last() == parts[0]);
        assert(whole.drop_last() =~= seq![head]);
        assert(spec_join_rev(seq![head]) == head);
    } else {
        assert(whole.last() == parts.last());
        assert(whole.drop_last() =~= seq![head] + parts.drop_last());
        lemma_join_rev_cons(head, parts.drop_last());
        assert(spec_join_rev(whole) == parts.last() + "::"@ + (spec_join_rev(parts.drop_last())
            + "::"@ + head));
        assert(parts.last() + "::"@ + (spec_join_rev(parts.drop_last()) + "::"@ + head) =~= (
        parts.last() + "::"@ + spec_join_rev(parts.drop_last())) + "::"@ + head);
    }
}

/// The position of the first name-separator marker of a string, if any.
fn find_first_sep(value: &str) -> (r: Option<usize>)
    ensures
        match r {
            Some(i) => spec_first_sep(value@) == Some(i as int),
            None => spec_first_sep(value@) is None,
        },
{
    let n = value.unicode_len();
    if n < 2 {
        return None;
    }
    let mut i: usize = 0;
    proof {
        assert(value@.skip(0) =~= value@);
    }
    while i <= n - 2
        invariant
            n == value@.len(),
            n >= 2,
            i <= n - 1,
            spec_first_sep(value@) == match spec_first_sep(value@.skip(i as int)) {
                Some(k) => Some(k + i),
                None => None::<int>,
            },
        decreases n - i,
    {
        proof {
            lemma_first_sep_step(value@, i as int);
        }
        let c0 = value.get_char(i);
        let c1 = value.get_char(i + 1);
        if c0 == '\u{0}' && c1 == '\u{1}' {
            return Some(i);
        }
        i = i + 1;
    }
    proof {
        assert(value@.skip(i as int).len() < 2);
    }
    None
}

/// Converts a raw object name, whose segments are cut apart by the
/// separator marker, into a friendly reading: the segments back to front,
/// joined with `"::"`.
pub fn friendly_name(value: &str) -> (r: String)
    ensures
        r@ == spec_friendly_name(value@),
    decreases value@.len(),
{
    match find_first_sep(value) {
        None => value.to_owned(),
        Some(i) => {
            proof {
                lemma_first_sep_props(value@);
            }
            let n = value.unicode_len();
            let head = value.substring_char(0, i);
            let tail = value.substring_char(i + 2, n);
            proof {
                assert(tail@ =~= value@.skip(i as int + 2));
                assert(head@ =~= value@.take(i as int));
            }
            let mut r = friendly_name(tail);
            proof {
                lemma_join_rev_cons(value@.take(i as int), spec_split_name(value@.skip(i as int + 2)));
            }
            r.append("::");
            r.append(head);
            proof {
                assert(r@ =~= spec_friendly_name(value@));
            }
            r
        },
    }
}

/// Converts a raw object name into one usable as an identifier: everything
/// before the first separator marker. Every name yields one.
pub fn id_name(value: &str) -> (r: Option<String>)
    ensures
        r matches Some(t) && t@ == spec_id_name(value@),
{
    match find_first_sep(value) {
        None => Some(value.to_owned()),
        Some(i) => {
            proof {
                lemma_first_sep_props(value@);
            }
            Some(String::from_str(value.substring_char(0, i)))
        },
    }
}

} // verus!
