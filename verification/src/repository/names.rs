//! Lists of names: finding, adding and taking out.

use crate::repository::model::{lemma_name_index, name_index, names_unique};
use vstd::prelude::*;

verus! {

/// `names` with `name` added at the end, unless it is there already.
pub open spec fn add_name(names: Seq<Seq<char>>, name: Seq<char>) -> Seq<Seq<char>> {
    if names.contains(name) {
        names
    } else {
        names.push(name)
    }
}

/// `names` with each of `more` added in turn.
pub open spec fn add_names(names: Seq<Seq<char>>, more: Seq<Seq<char>>) -> Seq<Seq<char>>
    decreases more.len(),
{
    if more.len() == 0 {
        names
    } else {
        add_name(add_names(names, more.drop_last()), more.last())
    }
}

/// `names` without any occurrence of `name`, the rest in their order.
pub open spec fn without_name(names: Seq<Seq<char>>, name: Seq<char>) -> Seq<Seq<char>>
    decreases names.len(),
{
    if names.len() == 0 {
        names
    } else if names.last() == name {
        without_name(names.drop_last(), name)
    } else {
        without_name(names.drop_last(), name).push(names.last())
    }
}

/// `names` without any occurrence of any of `gone`.
pub open spec fn without_names(names: Seq<Seq<char>>, gone: Seq<Seq<char>>) -> Seq<Seq<char>>
    decreases gone.len(),
{
    if gone.len() == 0 {
        names
    } else {
        without_name(without_names(names, gone.drop_last()), gone.last())
    }
}

/// `names` with `to` in the place of each occurrence of `from`.
pub open spec fn rename_in(names: Seq<Seq<char>>, from: Seq<char>, to: Seq<char>) -> Seq<
    Seq<char>,
> {
    Seq::new(
        names.len(),
        |i: int|
            if names[i] == from {
                to
            } else {
                names[i]
            },
    )
}

/// Taking a name out leaves exactly the other names.
pub proof fn lemma_without_name(names: Seq<Seq<char>>, name: Seq<char>)
    ensures
        forall|t: Seq<char>| #[trigger]
            without_name(names, name).contains(t) <==> names.contains(t) && t != name,
        without_name(names, name).len() <= names.len(),
    decreases names.len(),
{
    if names.len() > 0 {
        let front = names.drop_last();
        let last = names.last();
        lemma_without_name(front, name);
        let out = without_name(names, name);
        let front_out = without_name(front, name);
        assert forall|t: Seq<char>| #[trigger]
            out.contains(t) <==> names.contains(t) && t != name by {
            if out.contains(t) {
                let i = choose|i: int| 0 <= i < out.len() && out[i] == t;
                if last != name && i == front_out.len() {
                    assert(names[names.len() - 1] == t);
                } else {
                    assert(front_out[i] == t);
                    assert(front_out.contains(t));
                    let j = choose|j: int| 0 <= j < front.len() && front[j] == t;
                    assert(names[j] == t);
                }
            }
            if names.contains(t) && t != name {
                let j = choose|j: int| 0 <= j < names.len() && names[j] == t;
                if j == names.len() - 1 {
                    assert(out[front_out.len() as int] == t);
                } else {
                    assert(front[j] == t);
                    assert(front_out.contains(t));
                    let i = choose|i: int| 0 <= i < front_out.len() && front_out[i] == t;
                    assert(out[i] == t);
                }
            }
        }
    }
}

/// Adding a name leaves the names that were there, and adds that one.
pub proof fn lemma_add_name(names: Seq<Seq<char>>, name: Seq<char>)
    ensures
        forall|t: Seq<char>| #[trigger]
            add_name(names, name).contains(t) <==> names.contains(t) || t == name,
{
    let out = add_name(names, name);
    assert forall|t: Seq<char>| #[trigger] out.contains(t) <==> names.contains(t) || t == name by {
        if !names.contains(name) {
            if out.contains(t) {
                let i = choose|i: int| 0 <= i < out.len() && out[i] == t;
                if i < names.len() {
                    assert(names[i] == t);
                }
            }
            if names.contains(t) {
                let i = choose|i: int| 0 <= i < names.len() && names[i] == t;
                assert(out[i] == t);
            }
            if t == name {
                assert(out[names.len() as int] == t);
            }
        }
    }
}

/// Adding names leaves the names that were there, and adds exactly the
/// others.
pub proof fn lemma_add_names(names: Seq<Seq<char>>, more: Seq<Seq<char>>)
    ensures
        forall|t: Seq<char>| #[trigger]
            add_names(names, more).contains(t) <==> names.contains(t) || more.contains(t),
    decreases more.len(),
{
    if more.len() > 0 {
        let front = more.drop_last();
        let last = more.last();
        lemma_add_names(names, front);
        let mid = add_names(names, front);
        lemma_add_name(mid, last);
        let out = add_names(names, more);
        assert forall|t: Seq<char>| #[trigger]
            out.contains(t) <==> names.contains(t) || more.contains(t) by {
            if more.contains(t) {
                let j = choose|j: int| 0 <= j < more.len() && more[j] == t;
                if j < more.len() - 1 {
                    assert(front[j] == t);
                }
            }
            if front.contains(t) {
                let j = choose|j: int| 0 <= j < front.len() && front[j] == t;
                assert(more[j] == t);
            }
            if t == last {
                assert(more[more.len() - 1] == t);
            }
        }
    } else {
        assert forall|t: Seq<char>| !more.contains(t) by {}
    }
}

/// Taking names out leaves exactly the names that are not among them.
pub proof fn lemma_without_names(names: Seq<Seq<char>>, gone: Seq<Seq<char>>)
    ensures
        forall|t: Seq<char>| #[trigger]
            without_names(names, gone).contains(t) <==> names.contains(t) && !gone.contains(t),
    decreases gone.len(),
{
    if gone.len() > 0 {
        let front = gone.drop_last();
        let last = gone.last();
        lemma_without_names(names, front);
        let mid = without_names(names, front);
        lemma_without_name(mid, last);
        let out = without_names(names, gone);
        assert forall|t: Seq<char>| #[trigger]
            out.contains(t) <==> names.contains(t) && !gone.contains(t) by {
            if gone.contains(t) {
                let j = choose|j: int| 0 <= j < gone.len() && gone[j] == t;
                if j < gone.len() - 1 {
                    assert(front[j] == t);
                }
            }
            if front.contains(t) {
                let j = choose|j: int| 0 <= j < front.len() && front[j] == t;
                assert(gone[j] == t);
            }
            if t == last {
                assert(gone[gone.len() - 1] == t);
            }
        }
    }
}

/// Taking a name out of names that are unique leaves them unique.
pub proof fn lemma_without_name_unique(names: Seq<Seq<char>>, name: Seq<char>)
    requires
        names_unique(names),
    ensures
        names_unique(without_name(names, name)),
    decreases names.len(),
{
    if names.len() > 0 {
        let front = names.drop_last();
        let last = names.last();
        assert forall|i: int, j: int| 0 <= i < j < front.len() implies #[trigger] front[i]
            != #[trigger] front[j] by {
            assert(names[i] != names[j]);
        }
        lemma_without_name_unique(front, name);
        lemma_without_name(front, name);
        let kept = without_name(front, name);
        let out = without_name(names, name);
        if last != name {
            assert forall|i: int, j: int| 0 <= i < j < out.len() implies #[trigger] out[i]
                != #[trigger] out[j] by {
                if j == kept.len() {
                    assert(kept[i] == out[i]);
                    assert(kept.contains(kept[i]));
                    assert(front.contains(kept[i]));
                    let k = choose|k: int| 0 <= k < front.len() && front[k] == kept[i];
                    assert(names[k] != names[names.len() - 1]);
                } else {
                    assert(kept[i] != kept[j]);
                }
            }
        }
    }
}

/// Taking names out of names that are unique leaves them unique.
pub proof fn lemma_without_names_unique(names: Seq<Seq<char>>, gone: Seq<Seq<char>>)
    requires
        names_unique(names),
    ensures
        names_unique(without_names(names, gone)),
    decreases gone.len(),
{
    if gone.len() > 0 {
        lemma_without_names_unique(names, gone.drop_last());
        lemma_without_name_unique(without_names(names, gone.drop_last()), gone.last());
    }
}

/// Adding a name that is not there keeps names unique.
pub proof fn lemma_add_name_unique(names: Seq<Seq<char>>, name: Seq<char>)
    requires
        names_unique(names),
    ensures
        names_unique(add_name(names, name)),
{
    let out = add_name(names, name);
    assert forall|i: int, j: int| 0 <= i < j < out.len() implies #[trigger] out[i]
        != #[trigger] out[j] by {
        if j == names.len() {
            assert(names[i] != name);
        } else {
            assert(names[i] != names[j]);
        }
    }
}

/// Adding names one by one keeps names unique.
pub proof fn lemma_add_names_unique(names: Seq<Seq<char>>, more: Seq<Seq<char>>)
    requires
        names_unique(names),
    ensures
        names_unique(add_names(names, more)),
    decreases more.len(),
{
    if more.len() > 0 {
        lemma_add_names_unique(names, more.drop_last());
        lemma_add_name_unique(add_names(names, more.drop_last()), more.last());
    }
}

/// `names` with the name `from` changed to `to`: nothing where the two are
/// the same; where `to` is among the names already, `from` is taken out, so
/// that no name comes to be there twice.
pub open spec fn renamed(names: Seq<Seq<char>>, from: Seq<char>, to: Seq<char>) -> Seq<Seq<char>> {
    if from == to {
        names
    } else if names.contains(to) {
        without_name(names, from)
    } else {
        rename_in(names, from, to)
    }
}

/// Changing a name in names that are unique leaves them unique.
pub proof fn lemma_renamed_unique(names: Seq<Seq<char>>, from: Seq<char>, to: Seq<char>)
    requires
        names_unique(names),
    ensures
        names_unique(renamed(names, from, to)),
{
    if from != to {
        if names.contains(to) {
            lemma_without_name_unique(names, from);
        } else {
            let out = rename_in(names, from, to);
            assert forall|i: int, j: int| 0 <= i < j < out.len() implies #[trigger] out[i]
                != #[trigger] out[j] by {
                assert(names[i] != names[j]);
                assert(names[i] != to);
                assert(names[j] != to);
            }
        }
    }
}

/// A copy of `names` with the name `from` changed to `to`.
pub fn change_name(names: &Vec<String>, from: &String, to: &String) -> (out: Vec<String>)
    ensures
        out.deep_view() == renamed(names.deep_view(), from@, to@),
{
    if same_text(from, to) {
        let out = names.clone();
        assert(out.deep_view() =~= names.deep_view());
        out
    } else if find_name(names, to).is_some() {
        remove_name(names, from)
    } else {
        rename_name(names, from, to)
    }
}

/// Whether two texts are the same.
pub fn same_text(a: &String, b: &String) -> (same: bool)
    ensures
        same == (a@ == b@),
{
    *a == *b
}

/// The place of the first occurrence of `name` in `names`.
pub fn find_name(names: &Vec<String>, name: &String) -> (found: Option<usize>)
    ensures
        match found {
            Some(i) => i == name_index(names.deep_view(), name@) && i < names.len()
                && names@[i as int]@ == name@ && names.deep_view().contains(name@),
            None => !names.deep_view().contains(name@),
        },
{
    let mut i: usize = 0;
    while i < names.len()
        invariant
            i <= names.len(),
            forall|k: int| 0 <= k < i ==> #[trigger] names.deep_view()[k] != name@,
        decreases names.len() - i,
    {
        if same_text(&names[i], name) {
            proof {
                lemma_name_index(names.deep_view(), name@);
                assert(names.deep_view()[i as int] == name@);
            }
            return Some(i);
        }
        i = i + 1;
    }
    None
}

/// Adds `name` at the end of `names` unless it is there already.
pub fn push_name(names: &mut Vec<String>, name: &String)
    ensures
        final(names).deep_view() == add_name(old(names).deep_view(), name@),
{
    if find_name(names, name).is_none() {
        let ghost before = names.deep_view();
        names.push(name.clone());
        assert(names.deep_view() =~= before.push(name@));
    }
}

/// Adds each of `more` to `names` in turn.
pub fn push_names(names: &mut Vec<String>, more: &Vec<String>)
    ensures
        final(names).deep_view() == add_names(old(names).deep_view(), more.deep_view()),
{
    let mut i: usize = 0;
    while i < more.len()
        invariant
            i <= more.len(),
            names.deep_view() == add_names(old(names).deep_view(), more.deep_view().take(i as int)),
        decreases more.len() - i,
    {
        proof {
            let next = more.deep_view().take(i as int + 1);
            assert(next.drop_last() =~= more.deep_view().take(i as int));
            assert(next.last() == more@[i as int]@);
        }
        push_name(names, &more[i]);
        i = i + 1;
    }
    proof {
        assert(more.deep_view().take(more.len() as int) =~= more.deep_view());
    }
}

/// A copy of `names` without any occurrence of `name`.
pub fn remove_name(names: &Vec<String>, name: &String) -> (out: Vec<String>)
    ensures
        out.deep_view() == without_name(names.deep_view(), name@),
{
    let mut out: Vec<String> = Vec::new();
    let mut i: usize = 0;
    assert(out.deep_view() =~= without_name(names.deep_view().take(0), name@));
    while i < names.len()
        invariant
            i <= names.len(),
            out.deep_view() == without_name(names.deep_view().take(i as int), name@),
        decreases names.len() - i,
    {
        let ghost before = out.deep_view();
        proof {
            let next = names.deep_view().take(i as int + 1);
            assert(next.drop_last() =~= names.deep_view().take(i as int));
            assert(next.last() == names@[i as int]@);
        }
        if !same_text(&names[i], name) {
            out.push(names[i].clone());
            assert(out.deep_view() =~= before.push(names@[i as int]@));
        }
        i = i + 1;
    }
    proof {
        assert(names.deep_view().take(names.len() as int) =~= names.deep_view());
    }
    out
}

/// A copy of `names` without any occurrence of any of `gone`.
pub fn remove_names(names: &Vec<String>, gone: &Vec<String>) -> (out: Vec<String>)
    ensures
        out.deep_view() == without_names(names.deep_view(), gone.deep_view()),
{
    let mut out: Vec<String> = names.clone();
    assert(out.deep_view() =~= names.deep_view());
    let mut i: usize = 0;
    while i < gone.len()
        invariant
            i <= gone.len(),
            out.deep_view() == without_names(names.deep_view(), gone.deep_view().take(i as int)),
        decreases gone.len() - i,
    {
        proof {
            let next = gone.deep_view().take(i as int + 1);
            assert(next.drop_last() =~= gone.deep_view().take(i as int));
            assert(next.last() == gone@[i as int]@);
        }
        out = remove_name(&out, &gone[i]);
        i = i + 1;
    }
    proof {
        assert(gone.deep_view().take(gone.len() as int) =~= gone.deep_view());
    }
    out
}

/// A copy of `names` with `to` in the place of each occurrence of `from`.
pub fn rename_name(names: &Vec<String>, from: &String, to: &String) -> (out: Vec<String>)
    ensures
        out.deep_view() == rename_in(names.deep_view(), from@, to@),
{
    let mut out: Vec<String> = Vec::new();
    let mut i: usize = 0;
    while i < names.len()
        invariant
            i <= names.len(),
            out.len() == i,
            forall|k: int|
                0 <= k < i ==> #[trigger] out@[k]@ == rename_in(names.deep_view(), from@, to@)[k],
        decreases names.len() - i,
    {
        if same_text(&names[i], from) {
            out.push(to.clone());
        } else {
            out.push(names[i].clone());
        }
        i = i + 1;
    }
    assert(out.deep_view() =~= rename_in(names.deep_view(), from@, to@));
    out
}

} // verus!
