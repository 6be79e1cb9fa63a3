//! Labels: the named, typed attributes that a record can carry.

use vstd::prelude::*;
use vstd::std_specs::cmp::PartialEqSpecImpl;

verus! {

/// The shape of the value that an attribute holds.
#[derive(Copy, Clone, Debug, PartialEq, Eq, Hash, Structural)]
pub enum LabelDataKind {
    /// A 16-bit signed number.
    Number,
    /// An owned text of any length.
    Text,
    /// No value: the attribute is present or it is not.
    Unit,
}

/// A named, typed attribute. It is the key of a column.
#[derive(Debug, Eq, Hash)]
pub struct Label {
    pub name: String,
    pub data: LabelDataKind,
}

/// What a label is: its name as characters, and its kind.
pub struct LabelView {
    pub name: Seq<char>,
    pub data: LabelDataKind,
}

impl View for Label {
    type V = LabelView;

    open spec fn view(&self) -> LabelView {
        LabelView { name: self.name@, data: self.data }
    }
}

impl Clone for Label {
    fn clone(&self) -> (r: Self)
        ensures
            r@ == self@,
    {
        Label { name: self.name.clone(), data: self.data }
    }
}

impl PartialEq for Label {
    fn eq(&self, other: &Self) -> (r: bool) {
        self.name == other.name && self.data == other.data
    }
}

impl PartialEqSpecImpl for Label {
    open spec fn obeys_eq_spec() -> bool {
        true
    }

    open spec fn eq_spec(&self, other: &Self) -> bool {
        self.name@ == other.name@ && self.data == other.data
    }
}

impl Label {
    /// A label with the given name and kind.
    pub fn new(name: String, data: LabelDataKind) -> (r: Label)
        ensures
            r@ == (LabelView { name: name@, data }),
    {
        Label { name, data }
    }

    /// Whether two labels are the same attribute: equal in name and in kind.
    pub fn same(&self, other: &Label) -> (r: bool)
        ensures
            r == (self@ == other@),
    {
        self.name == other.name && self.data == other.data
    }
}

/// The labels of a sequence, each by its view.
pub open spec fn label_views(labels: Seq<Label>) -> Seq<LabelView> {
    labels.map_values(|l: Label| l@)
}

/// The position of a label in a list of labels, where it occurs.
pub fn position_of(labels: &Vec<Label>, label: &Label) -> (r: Option<usize>)
    ensures
        match r {
            Some(i) => i < labels.len() && labels[i as int]@ == label@ && forall|j: int|
                0 <= j < i ==> labels[j]@ != label@,
            None => forall|j: int| 0 <= j < labels.len() ==> labels[j]@ != label@,
        },
{
    let mut i: usize = 0;
    while i < labels.len()
        invariant
            i <= labels.len(),
            forall|j: int| 0 <= j < i ==> labels[j]@ != label@,
        decreases labels.len() - i,
    {
        if labels[i].same(label) {
            return Some(i);
        }
        i += 1;
    }
    None
}

} // verus!
