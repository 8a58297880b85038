//! The generic node tree: the parsed shape of an interchange file before it
//! is turned into the typed object graph.

use vstd::prelude::*;

use crate::value::PropValue;

verus! {

/// One node of the generic tree: a tag name, an ordered list of typed scalar
/// payloads, and an ordered list of child nodes.
#[derive(Debug)]
pub struct Node {
    pub name: String,
    pub properties: Vec<PropValue>,
    pub children: Vec<Node>,
}

/// The first node of `s` whose name reads `name`, if any.
pub open spec fn spec_find_child(s: Seq<Node>, name: Seq<char>) -> Option<Node>
    decreases s.len(),
{
    if s.len() == 0 {
        None
    } else if s[0].name@ == name {
        Some(s[0])
    } else {
        spec_find_child(s.drop_first(), name)
    }
}

/// Searching a suffix one element further in is the same as first testing the
/// element that was skipped.
pub proof fn lemma_find_child_step(s: Seq<Node>, name: Seq<char>, i: int)
    requires
        0 <= i < s.len(),
    ensures
        spec_find_child(s.skip(i), name) == if s[i].name@ == name {
            Some(s[i])
        } else {
            spec_find_child(s.skip(i + 1), name)
        },
{
    assert(s.skip(i).len() > 0);
    assert(s.skip(i)[0] == s[i]);
    assert(s.skip(i).drop_first() =~= s.skip(i + 1));
}

/// Tests a string against a string slice.
pub fn str_eq(a: &String, b: &str) -> (r: bool)
    ensures
        r == (a@ == b@),
{
    let t = String::from_str(b);
    *a == t
}

/// The first node of `s` whose name reads `name`, if any.
pub fn find_node<'a>(s: &'a Vec<Node>, name: &str) -> (r: Option<&'a Node>)
    ensures
        match r {
            Some(c) => spec_find_child(s@, name@) == Some(*c),
            None => spec_find_child(s@, name@) is None,
        },
{
    let ghost cs = s@;
    let mut i: usize = 0;
    proof {
        assert(cs.skip(0) =~= cs);
    }
    while i < s.len()
        invariant
            i <= cs.len(),
            cs == s@,
            spec_find_child(cs, name@) == spec_find_child(cs.skip(i as int), name@),
        decreases cs.len() - i,
    {
        proof {
            lemma_find_child_step(cs, name@, i as int);
        }
        if str_eq(&s[i].name, name) {
            return Some(&s[i]);
        }
        i = i + 1;
    }
    proof {
        assert(cs.skip(i as int) =~= Seq::<Node>::empty());
    }
    None
}

impl Node {
    /// The first direct child with the given tag name, if any.
    pub fn find_child(&self, name: &str) -> (r: Option<&Node>)
        ensures
            match r {
                Some(c) => spec_find_child(self.children@, name@) == Some(*c),
                None => spec_find_child(self.children@, name@) is None,
            },
    {
        find_node(&self.children, name)
    }
}

/// A whole parsed file: its list of top-level nodes.
#[derive(Debug)]
pub struct RawFbx {
    pub nodes: Vec<Node>,
}

} // verus!
