//! Groups: named aliases for sets of components.
//!
//! Running a group runs every named member component, with the group's
//! environment applied to each member as an override layer below the
//! component's own environment.

use crate::env::EnvMap;
use crate::util::clone_strings;
use vstd::prelude::*;

verus! {

/// A named alias for a set of components.
pub struct Group {
    pub name: String,
    pub components: Vec<String>,
    pub env: EnvMap,
}

/// The mathematical shape of a [`Group`].
pub struct GroupView {
    pub name: Seq<char>,
    pub components: Seq<Seq<char>>,
    pub env: Seq<(Seq<char>, Seq<char>)>,
}

impl View for Group {
    type V = GroupView;

    open spec fn view(&self) -> GroupView {
        GroupView {
            name: self.name@,
            components: self.components.deep_view(),
            env: self.env@,
        }
    }
}

impl DeepView for Group {
    type V = GroupView;

    open spec fn deep_view(&self) -> GroupView {
        self@
    }
}

impl Clone for Group {
    fn clone(&self) -> (r: Self)
        ensures
            r@ == self@,
    {
        Group {
            name: self.name.clone(),
            components: clone_strings(&self.components),
            env: self.env.clone(),
        }
    }
}

} // verus!
