use vstd::prelude::*;

verus! {

/// Index of the first element of `s` equal to `x`.
pub open spec fn first_match(s: Seq<Seq<char>>, x: Seq<char>) -> Option<int>
    decreases s.len(),
{
    if s.len() == 0 {
        None
    } else if s[0] == x {
        Some(0)
    } else {
        match first_match(s.drop_first(), x) {
            Some(i) => Some(i + 1),
            None => None,
        }
    }
}

pub open spec fn strings_view(v: Seq<String>) -> Seq<Seq<char>> {
    v.map_values(|s: String| s@)
}

pub proof fn lemma_first_match_found(s: Seq<Seq<char>>, x: Seq<char>, i: int)
    requires
        0 <= i < s.len(),
        s[i] == x,
        forall|j: int| 0 <= j < i ==> s[j] != x,
    ensures
        first_match(s, x) == Some(i),
    decreases i,
{
    if i > 0 {
        lemma_first_match_found(s.drop_first(), x, i - 1);
    }
}

pub proof fn lemma_first_match_absent(s: Seq<Seq<char>>, x: Seq<char>)
    requires
        forall|j: int| 0 <= j < s.len() ==> s[j] != x,
    ensures
        first_match(s, x) is None,
    decreases s.len(),
{
    if s.len() > 0 {
        lemma_first_match_absent(s.drop_first(), x);
    }
}

pub proof fn lemma_first_match_none(s: Seq<Seq<char>>, x: Seq<char>)
    requires
        first_match(s, x) is None,
    ensures
        forall|j: int| 0 <= j < s.len() ==> s[j] != x,
    decreases s.len(),
{
    if s.len() > 0 {
        lemma_first_match_none(s.drop_first(), x);
        assert forall|j: int| 0 <= j < s.len() implies s[j] != x by {
            if j > 0 {
                assert(s[j] == s.drop_first()[j - 1]);
            }
        }
    }
}

/// Position of the first string in `items` equal to `target`.
pub fn find_first(items: &Vec<String>, target: &String) -> (r: Option<usize>)
    ensures
        match r {
            Some(i) => first_match(strings_view(items@), target@) == Some(i as int),
            None => first_match(strings_view(items@), target@) is None,
        },
{
    let mut i: usize = 0;
    while i < items.len()
        invariant
            i <= items@.len(),
            forall|j: int| 0 <= j < i ==> items@[j]@ != target@,
        decreases items.len() - i,
    {
        if items[i].eq(target) {
            proof {
                lemma_first_match_found(strings_view(items@), target@, i as int);
            }
            return Some(i);
        }
        i = i + 1;
    }
    proof {
        lemma_first_match_absent(strings_view(items@), target@);
    }
    None
}

} // verus!
