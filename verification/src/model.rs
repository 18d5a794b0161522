//! The two record types of the store and their mathematical views.

use vstd::prelude::*;

verus! {

/// A note as it is kept in the note collection.
#[derive(Debug, PartialEq, Eq)]
pub struct Note {
    /// The key of the note within its collection.
    pub id: u32,
    pub title: String,
    pub description: String,
    pub content: String,
    /// Path or address of an image, where the note has one.
    pub img: Option<String>,
    /// Names of the categories of the note, in the order given. A name may
    /// stand twice, and need not be the name of a stored category.
    pub categories: Vec<String>,
    /// Time of creation as the caller wrote it; the store never reads it.
    pub created_at: String,
}

/// A category as it is kept in the category collection; `name` is its key.
#[derive(Debug, PartialEq, Eq)]
pub struct Category {
    /// The key of the category within its collection.
    pub name: String,
    /// The colour as the caller wrote it; the store never reads it.
    pub color: String,
}

/// What a [`Note`] holds, as plain mathematical values.
pub struct NoteView {
    pub id: u32,
    pub title: Seq<char>,
    pub description: Seq<char>,
    pub content: Seq<char>,
    pub img: Option<Seq<char>>,
    pub categories: Seq<Seq<char>>,
    pub created_at: Seq<char>,
}

/// What a [`Category`] holds, as plain mathematical values.
pub struct CategoryView {
    pub name: Seq<char>,
    pub color: Seq<char>,
}

impl DeepView for Note {
    type V = NoteView;

    open spec fn deep_view(&self) -> NoteView {
        NoteView {
            id: self.id,
            title: self.title@,
            description: self.description@,
            content: self.content@,
            img: self.img.deep_view(),
            categories: self.categories.deep_view(),
            created_at: self.created_at@,
        }
    }
}

impl View for Note {
    type V = NoteView;

    open spec fn view(&self) -> NoteView {
        self.deep_view()
    }
}

impl DeepView for Category {
    type V = CategoryView;

    open spec fn deep_view(&self) -> CategoryView {
        CategoryView { name: self.name@, color: self.color@ }
    }
}

impl View for Category {
    type V = CategoryView;

    open spec fn view(&self) -> CategoryView {
        self.deep_view()
    }
}

/// A copy of a list of names that holds the same names in the same order.
pub fn clone_names(names: &Vec<String>) -> (r: Vec<String>)
    ensures
        r.deep_view() == names.deep_view(),
{
    let mut copy: Vec<String> = Vec::new();
    for i in 0..names.len()
        invariant
            copy.len() == i,
            forall|k: int| 0 <= k < i ==> copy@[k]@ == names@[k]@,
    {
        copy.push(names[i].clone());
    }
    copy
}

impl Clone for Note {
    /// A copy that holds what this note holds.
    fn clone(&self) -> (r: Self)
        ensures
            r@ == self@,
    {
        let img = match &self.img {
            Some(path) => Some(path.clone()),
            None => None,
        };
        Note {
            id: self.id,
            title: self.title.clone(),
            description: self.description.clone(),
            content: self.content.clone(),
            img,
            categories: clone_names(&self.categories),
            created_at: self.created_at.clone(),
        }
    }
}

impl Clone for Category {
    /// A copy that holds what this category holds.
    fn clone(&self) -> (r: Self)
        ensures
            r@ == self@,
    {
        Category { name: self.name.clone(), color: self.color.clone() }
    }
}

} // verus!
