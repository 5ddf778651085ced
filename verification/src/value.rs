use vstd::prelude::*;

use crate::attrs::{FileAttributes, StoreAttrs};

verus! {

/// A value held in a revision store, made of optional parts, one per attribute.
pub trait StoreValue: Sized {
    type Attrs: StoreAttrs;

    /// The attributes whose parts are present.
    spec fn attrs_spec(&self) -> Self::Attrs;

    /// The parts of `self`, with the parts of `other` filling those that `self` lacks.
    spec fn combine_spec(self, other: Self) -> Self;

    /// `self` with only the parts named in `attrs` kept.
    spec fn mask_spec(self, attrs: Self::Attrs) -> Self;

    /// The value with no part present.
    spec fn empty_spec() -> Self;

    /// The empty value has no attribute.
    proof fn lemma_empty_has_no_attrs()
        ensures
            Self::empty_spec().attrs_spec() == Self::Attrs::none_spec(),
    ;

    /// A combination has every attribute of each of its operands.
    proof fn lemma_combine_keeps_attrs(a: Self, b: Self)
        ensures
            a.combine_spec(b).attrs_spec().has_spec(a.attrs_spec()),
            a.combine_spec(b).attrs_spec().has_spec(b.attrs_spec()),
    ;

    /// In a combination the parts of the left operand win: where it has every
    /// attribute of `attrs`, those parts of the combination are its own.
    proof fn lemma_combine_prefers_left(a: Self, b: Self, attrs: Self::Attrs)
        requires
            a.attrs_spec().has_spec(attrs),
        ensures
            a.combine_spec(b).mask_spec(attrs) == a.mask_spec(attrs),
    ;

    fn empty() -> (r: Self)
        ensures
            r == Self::empty_spec(),
    ;

    fn attrs(&self) -> (r: Self::Attrs)
        ensures
            r == self.attrs_spec(),
    ;

    fn combine(self, other: Self) -> (r: Self)
        ensures
            r == self.combine_spec(other),
    ;

    fn mask(self, attrs: Self::Attrs) -> (r: Self)
        ensures
            r == self.mask_spec(attrs),
    ;
}

/// A stored file: its content and its auxiliary data, each possibly absent.
#[derive(Debug)]
pub struct FileValue {
    pub content: Option<Vec<u8>>,
    pub aux_data: Option<u64>,
}

impl StoreValue for FileValue {
    type Attrs = FileAttributes;

    open spec fn attrs_spec(&self) -> FileAttributes {
        FileAttributes { content: self.content is Some, aux_data: self.aux_data is Some }
    }

    open spec fn combine_spec(self, other: Self) -> Self {
        FileValue {
            content: if self.content is Some { self.content } else { other.content },
            aux_data: if self.aux_data is Some { self.aux_data } else { other.aux_data },
        }
    }

    open spec fn mask_spec(self, attrs: FileAttributes) -> Self {
        FileValue {
            content: if attrs.content { self.content } else { None },
            aux_data: if attrs.aux_data { self.aux_data } else { None },
        }
    }

    open spec fn empty_spec() -> Self {
        FileValue { content: None, aux_data: None }
    }

    proof fn lemma_empty_has_no_attrs() {
    }

    proof fn lemma_combine_keeps_attrs(a: Self, b: Self) {
    }

    proof fn lemma_combine_prefers_left(a: Self, b: Self, attrs: FileAttributes) {
    }

    fn empty() -> (r: Self) {
        FileValue { content: None, aux_data: None }
    }

    fn attrs(&self) -> (r: FileAttributes) {
        FileAttributes { content: self.content.is_some(), aux_data: self.aux_data.is_some() }
    }

    fn combine(self, other: Self) -> (r: Self) {
        let FileValue { content, aux_data } = self;
        let FileValue { content: other_content, aux_data: other_aux } = other;
        let content = match content {
            Some(c) => Some(c),
            None => other_content,
        };
        let aux_data = match aux_data {
            Some(a) => Some(a),
            None => other_aux,
        };
        FileValue { content, aux_data }
    }

    fn mask(self, attrs: FileAttributes) -> (r: Self) {
        let FileValue { content, aux_data } = self;
        FileValue {
            content: if attrs.content { content } else { None },
            aux_data: if attrs.aux_data { aux_data } else { None },
        }
    }
}

} // verus!
