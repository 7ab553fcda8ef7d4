//! Small helpers for building text and for relating vectors to their views.

use vstd::prelude::*;

verus! {

/// The views of the items of a sequence, in order.
pub open spec fn views<T: View>(items: Seq<T>) -> Seq<T::V> {
    items.map_values(|item: T| item@)
}

/// The texts of a sequence of strings, in order.
pub open spec fn texts(items: Seq<String>) -> Seq<Seq<char>> {
    items.map_values(|item: String| item@)
}

/// Appends `c` to `s`.
///
/// Trusted: the body is a call of `String::push`, which the standard library
/// documents as appending the given character to the end of the string.
#[verifier::external_body]
pub(crate) fn push_char(s: &mut String, c: char)
    ensures
        final(s)@ == old(s)@.push(c),
{
    s.push(c);
}

/// Whether two strings hold the same characters.
pub fn same_text(a: &str, b: &str) -> (same: bool)
    ensures
        same == (a@ == b@),
{
    let x = a.to_owned();
    let y = b.to_owned();
    x == y
}

/// A copy of `s`.
pub fn copy_text(s: &str) -> (copy: String)
    ensures
        copy@ == s@,
{
    s.to_owned()
}

/// The first index whose string already occurs before it, among the first
/// `n` strings of `names`.
pub open spec fn first_repeat(names: Seq<Seq<char>>, n: nat) -> Option<int>
    decreases n,
{
    if n == 0 || n > names.len() {
        None
    } else {
        match first_repeat(names, (n - 1) as nat) {
            Some(j) => Some(j),
            None => if names.take(n - 1).contains(names[n - 1]) {
                Some(n - 1)
            } else {
                None
            },
        }
    }
}

/// No string occurs twice in `names`.
pub open spec fn distinct(names: Seq<Seq<char>>) -> bool {
    forall|i: int, j: int| 0 <= i < j < names.len() ==> names[i] != names[j]
}

/// `first_repeat` finds nothing exactly among distinct prefixes, and what it
/// finds is the least index that repeats an earlier string.
pub proof fn lemma_first_repeat(names: Seq<Seq<char>>, n: nat)
    requires
        n <= names.len(),
    ensures
        first_repeat(names, n) is None <==> distinct(names.take(n as int)),
        first_repeat(names, n) matches Some(j) ==> {
            &&& 0 <= j < n
            &&& names.take(j).contains(names[j])
            &&& distinct(names.take(j))
        },
    decreases n,
{
    if n > 0 {
        let m = (n - 1) as nat;
        lemma_first_repeat(names, m);
        let shorter = names.take(m as int);
        let longer = names.take(n as int);
        assert forall|i: int| 0 <= i < m implies shorter[i] == longer[i] by {}
        match first_repeat(names, m) {
            Some(j) => {
                let i = choose|i: int| 0 <= i < j && names.take(j)[i] == names[j];
                assert(longer[i] == longer[j]);
            },
            None => {
                if shorter.contains(names[m as int]) {
                    let i = choose|i: int| 0 <= i < m && shorter[i] == names[m as int];
                    assert(longer[i] == longer[m as int]);
                } else {
                    assert forall|i: int, j: int| 0 <= i < j < longer.len() implies longer[i]
                        != longer[j] by {
                        if j < m {
                            assert(shorter[i] != shorter[j]);
                        } else {
                            assert(shorter[i] == longer[i]);
                        }
                    }
                }
            },
        }
    } else {
        assert(names.take(0).len() == 0);
    }
}

/// What `first_repeat` has found among the first `m` strings, it finds among
/// the first `n` for every larger `n`.
pub proof fn lemma_first_repeat_stays(names: Seq<Seq<char>>, m: nat, n: nat)
    requires
        m <= n <= names.len(),
        first_repeat(names, m) is Some,
    ensures
        first_repeat(names, n) == first_repeat(names, m),
    decreases n,
{
    if m < n {
        lemma_first_repeat_stays(names, m, (n - 1) as nat);
    }
}

/// A copy of each string of `items`, in order.
pub fn copy_texts(items: &Vec<String>) -> (copy: Vec<String>)
    ensures
        texts(copy@) == texts(items@),
{
    let mut copy: Vec<String> = Vec::new();
    let mut i: usize = 0;
    while i < items.len()
        invariant
            i <= items@.len(),
            texts(copy@) == texts(items@.take(i as int)),
        decreases items@.len() - i,
    {
        proof {
            items@.lemma_take_succ_push(i as int);
            items@.take(i as int).lemma_push_map_commute(|item: String| item@, items@[i as int]);
        }
        let ghost before = copy@;
        let s = copy_text(items[i].as_str());
        copy.push(s);
        proof {
            before.lemma_push_map_commute(|item: String| item@, s);
        }
        i += 1;
    }
    proof {
        items@.lemma_take_len();
    }
    copy
}

/// Finds the first string of `names` that repeats an earlier one.
pub fn find_repeat(names: &Vec<String>) -> (found: Option<usize>)
    ensures
        match found {
            Some(j) => first_repeat(texts(names@), names@.len()) == Some(j as int),
            None => first_repeat(texts(names@), names@.len()) is None,
        },
{
    let ghost all = texts(names@);
    let mut j: usize = 0;
    while j < names.len()
        invariant
            j <= names@.len(),
            all == texts(names@),
            first_repeat(all, j as nat) is None,
        decreases names@.len() - j,
    {
        let mut i: usize = 0;
        let mut seen = false;
        while i < j
            invariant
                i <= j < names@.len(),
                all == texts(names@),
                seen == all.take(i as int).contains(all[j as int]),
            decreases j - i,
        {
            proof {
                all.lemma_take_succ_push(i as int);
                vstd::seq_lib::lemma_seq_contains_after_push(
                    all.take(i as int),
                    all[i as int],
                    all[j as int],
                );
            }
            if same_text(names[i].as_str(), names[j].as_str()) {
                seen = true;
            }
            i += 1;
        }
        if seen {
            proof {
                lemma_first_repeat_stays(all, (j + 1) as nat, names@.len());
            }
            return Some(j);
        }
        j += 1;
    }
    None
}

} // verus!
