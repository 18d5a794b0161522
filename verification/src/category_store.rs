//! The category collection: replacement or insertion by name, and removal by
//! name. A category's name is its key.

use vstd::prelude::*;
use crate::model::{Category, CategoryView};

verus! {

/// Index of the first category that is called `name`, if any is.
pub open spec fn position_of_name(categories: Seq<CategoryView>, name: Seq<char>) -> Option<int>
    decreases categories.len(),
{
    if categories.len() == 0 {
        None
    } else if categories[0].name == name {
        Some(0)
    } else {
        match position_of_name(categories.drop_first(), name) {
            Some(i) => Some(i + 1),
            None => None,
        }
    }
}

/// `i` is the index of the first category that is called `name`.
pub open spec fn is_first_with_name(categories: Seq<CategoryView>, name: Seq<char>, i: int) -> bool {
    &&& 0 <= i < categories.len()
    &&& categories[i].name == name
    &&& forall|j: int| 0 <= j < i ==> categories[j].name != name
}

/// Some category is called `name`.
pub open spec fn has_name(categories: Seq<CategoryView>, name: Seq<char>) -> bool {
    exists|i: int| 0 <= i < categories.len() && categories[i].name == name
}

/// No two categories of the collection have the same name.
pub open spec fn unique_names(categories: Seq<CategoryView>) -> bool {
    forall|i: int, j: int| 0 <= i < j < categories.len() ==> categories[i].name != categories[j].name
}

/// The collection after `category` was saved: it stands where the first
/// category of its name stood, or at the end if there was none.
pub open spec fn upserted(categories: Seq<CategoryView>, category: CategoryView) -> Seq<
    CategoryView,
> {
    match position_of_name(categories, category.name) {
        Some(i) => categories.update(i, category),
        None => categories.push(category),
    }
}

/// Tells the categories to keep when `name` is removed.
pub open spec fn lacks_name(name: Seq<char>) -> spec_fn(CategoryView) -> bool {
    |c: CategoryView| c.name != name
}

/// The collection without the categories called `name`; the others keep
/// their order.
pub open spec fn without_name(categories: Seq<CategoryView>, name: Seq<char>) -> Seq<CategoryView> {
    categories.filter(lacks_name(name))
}

/// `position_of_name` finds the first category of the name, and finds one
/// whenever there is one.
pub proof fn lemma_position_of_name(categories: Seq<CategoryView>, name: Seq<char>)
    ensures
        match position_of_name(categories, name) {
            Some(i) => is_first_with_name(categories, name, i),
            None => !has_name(categories, name),
        },
    decreases categories.len(),
{
    if categories.len() > 0 && categories[0].name != name {
        let rest = categories.drop_first();
        lemma_position_of_name(rest, name);
        match position_of_name(rest, name) {
            Some(i) => {
                assert forall|j: int| 0 <= j < i + 1 implies categories[j].name != name by {
                    if j > 0 {
                        assert(categories[j] == rest[j - 1]);
                    }
                }
            },
            None => {
                assert forall|j: int| 0 <= j < categories.len() implies categories[j].name
                    != name by {
                    if j > 0 {
                        assert(categories[j] == rest[j - 1]);
                    }
                }
            },
        }
    }
}

/// The first category of the name stands at `i`, and nowhere else.
pub proof fn lemma_first_with_name_is_position(
    categories: Seq<CategoryView>,
    name: Seq<char>,
    i: int,
)
    requires
        is_first_with_name(categories, name, i),
    ensures
        position_of_name(categories, name) == Some(i),
{
    lemma_position_of_name(categories, name);
}

/// Index of the first category that is called `name`.
pub fn find_by_name(categories: &Vec<Category>, name: &String) -> (r: Option<usize>)
    ensures
        match r {
            Some(i) => i < categories.len() && position_of_name(categories.deep_view(), name@)
                == Some(i as int),
            None => position_of_name(categories.deep_view(), name@) is None,
        },
{
    let mut i: usize = 0;
    while i < categories.len()
        invariant
            0 <= i <= categories.len(),
            forall|j: int| 0 <= j < i ==> categories.deep_view()[j].name != name@,
        decreases categories.len() - i,
    {
        if categories[i].name == *name {
            proof {
                lemma_first_with_name_is_position(categories.deep_view(), name@, i as int);
            }
            return Some(i);
        }
        i += 1;
    }
    proof {
        lemma_position_of_name(categories.deep_view(), name@);
    }
    None
}

/// Saves `category`: it replaces the first category of its name where that
/// one stands, or is added at the end when no category has its name.
pub fn upsert(categories: Vec<Category>, category: Category) -> (r: Vec<Category>)
    ensures
        r.deep_view() == upserted(categories.deep_view(), category@),
{
    let mut categories = categories;
    match find_by_name(&categories, &category.name) {
        Some(i) => categories.set(i, category),
        None => categories.push(category),
    }
    categories
}

/// Removes every category called `name` and leaves the others in place.
pub fn delete_by_name(categories: Vec<Category>, name: &String) -> (r: Vec<Category>)
    ensures
        r.deep_view() == without_name(categories.deep_view(), name@),
{
    let ghost all = categories.deep_view();
    let mut kept: Vec<Category> = Vec::new();
    assert(kept.deep_view() =~= without_name(all.take(0), name@)) by {
        reveal(Seq::filter);
    }
    for category in it: categories.into_iter()
        invariant
            it.seq().len() == all.len(),
            forall|k: int| 0 <= k < all.len() ==> it.seq()[k]@ == all[k],
            kept.deep_view() == without_name(all.take(it.index()), name@),
    {
        proof {
            let seen = all.take(it.index());
            assert(all.take(it.index() + 1) =~= seen.push(category@));
            seen.lemma_filter_push(category@, lacks_name(name@));
        }
        if category.name != *name {
            kept.push(category);
        }
    }
    assert(all.take(all.len() as int) =~= all);
    kept
}

} // verus!
