use vstd::prelude::*;

verus! {

/// A set of attributes that can be requested for a stored value.
///
/// The operations mirror a bit set: the empty set, difference, intersection,
/// inclusion, and the closure under "attributes that can be computed from
/// the ones already present".
pub trait StoreAttrs: Sized + Copy {
    /// The empty attribute set.
    spec fn none_spec() -> Self;

    /// `self` holds no attribute.
    spec fn is_none_spec(self) -> bool;

    /// The attributes in `self` and not in `other`.
    spec fn minus_spec(self, other: Self) -> Self;

    /// The attributes in both `self` and `other`.
    spec fn intersect_spec(self, other: Self) -> Self;

    /// `self` plus every attribute that can be computed from `self`.
    spec fn with_computable_spec(self) -> Self;

    /// Every attribute of `other` is in `self`.
    open spec fn has_spec(self, other: Self) -> bool {
        other.minus_spec(self).is_none_spec()
    }

    /// An intersection lies within its right operand.
    proof fn lemma_intersect_within(a: Self, b: Self)
        ensures
            b.has_spec(a.intersect_spec(b)),
            a.has_spec(a.intersect_spec(b)),
    ;

    /// Every set holds the empty set.
    proof fn lemma_none_within(a: Self)
        ensures
            a.has_spec(Self::none_spec()),
    ;

    /// Intersecting with the empty set gives nothing.
    proof fn lemma_none_intersect(a: Self)
        ensures
            Self::none_spec().intersect_spec(a).is_none_spec(),
    ;

    /// The empty set holds only what is empty.
    proof fn lemma_none_holds_only_none(a: Self)
        requires
            Self::none_spec().has_spec(a),
        ensures
            a.is_none_spec(),
    ;

    /// A difference lies within its left operand.
    proof fn lemma_minus_within(a: Self, b: Self)
        ensures
            a.has_spec(a.minus_spec(b)),
    ;

    /// Inclusion is transitive.
    proof fn lemma_has_transitive(a: Self, b: Self, c: Self)
        requires
            a.has_spec(b),
            b.has_spec(c),
        ensures
            a.has_spec(c),
    ;

    /// Intersecting with a subset of a difference keeps it disjoint from the subtrahend.
    proof fn lemma_intersect_minus_disjoint(a: Self, b: Self, c: Self)
        ensures
            a.minus_spec(b).intersect_spec(c).intersect_spec(b).is_none_spec(),
    ;

    /// The empty set holds nothing.
    proof fn lemma_none_is_none()
        ensures
            Self::none_spec().is_none_spec(),
    ;

    /// Nothing is computable from nothing.
    proof fn lemma_with_computable_of_none(a: Self)
        requires
            a.is_none_spec(),
        ensures
            a.with_computable_spec().is_none_spec(),
    ;

    /// The computable closure keeps everything it starts from.
    proof fn lemma_with_computable_extends(a: Self)
        ensures
            a.with_computable_spec().has_spec(a),
    ;

    /// Intersecting with an empty set gives nothing.
    proof fn lemma_intersect_none(a: Self, b: Self)
        requires
            b.is_none_spec(),
        ensures
            a.intersect_spec(b).is_none_spec(),
    ;

    /// `a.minus_spec(b).intersect_spec(c)` is the largest set within `a` and `c`
    /// that shares nothing with `b`.
    proof fn lemma_minus_intersect_greatest(a: Self, b: Self, c: Self, x: Self)
        requires
            a.has_spec(x),
            c.has_spec(x),
            x.intersect_spec(b).is_none_spec(),
        ensures
            a.minus_spec(b).intersect_spec(c).has_spec(x),
    ;

    fn none_attrs() -> (r: Self)
        ensures
            r == Self::none_spec(),
    ;

    fn none(&self) -> (r: bool)
        ensures
            r == self.is_none_spec(),
    ;

    fn any(&self) -> (r: bool)
        ensures
            r == !self.is_none_spec(),
    ;

    fn has(&self, other: Self) -> (r: bool)
        ensures
            r == self.has_spec(other),
    ;

    fn minus(self, other: Self) -> (r: Self)
        ensures
            r == self.minus_spec(other),
    ;

    fn intersect(self, other: Self) -> (r: Self)
        ensures
            r == self.intersect_spec(other),
    ;

    fn with_computable(&self) -> (r: Self)
        ensures
            r == self.with_computable_spec(),
    ;
}

/// The attributes of a stored file: its content and its auxiliary data
/// (sizes and hashes), the latter computable from the former.
#[derive(Clone, Copy, Debug, PartialEq, Eq, Structural)]
pub struct FileAttributes {
    pub content: bool,
    pub aux_data: bool,
}

impl StoreAttrs for FileAttributes {
    open spec fn none_spec() -> Self {
        FileAttributes { content: false, aux_data: false }
    }

    open spec fn is_none_spec(self) -> bool {
        !self.content && !self.aux_data
    }

    open spec fn minus_spec(self, other: Self) -> Self {
        FileAttributes {
            content: self.content && !other.content,
            aux_data: self.aux_data && !other.aux_data,
        }
    }

    open spec fn intersect_spec(self, other: Self) -> Self {
        FileAttributes {
            content: self.content && other.content,
            aux_data: self.aux_data && other.aux_data,
        }
    }

    /// Auxiliary data can be computed from the content.
    open spec fn with_computable_spec(self) -> Self {
        FileAttributes { content: self.content, aux_data: self.aux_data || self.content }
    }

    proof fn lemma_intersect_within(a: Self, b: Self) {
    }

    proof fn lemma_none_within(a: Self) {
    }

    proof fn lemma_none_intersect(a: Self) {
    }

    proof fn lemma_none_holds_only_none(a: Self) {
    }

    proof fn lemma_minus_within(a: Self, b: Self) {
    }

    proof fn lemma_has_transitive(a: Self, b: Self, c: Self) {
    }

    proof fn lemma_intersect_minus_disjoint(a: Self, b: Self, c: Self) {
    }

    proof fn lemma_none_is_none() {
    }

    proof fn lemma_with_computable_of_none(a: Self) {
    }

    proof fn lemma_with_computable_extends(a: Self) {
    }

    proof fn lemma_intersect_none(a: Self, b: Self) {
    }

    proof fn lemma_minus_intersect_greatest(a: Self, b: Self, c: Self, x: Self) {
    }

    fn none_attrs() -> (r: Self) {
        FileAttributes { content: false, aux_data: false }
    }

    fn none(&self) -> (r: bool) {
        !self.content && !self.aux_data
    }

    fn any(&self) -> (r: bool) {
        self.content || self.aux_data
    }

    fn has(&self, other: Self) -> (r: bool) {
        !(other.content && !self.content) && !(other.aux_data && !self.aux_data)
    }

    fn minus(self, other: Self) -> (r: Self) {
        FileAttributes {
            content: self.content && !other.content,
            aux_data: self.aux_data && !other.aux_data,
        }
    }

    fn intersect(self, other: Self) -> (r: Self) {
        FileAttributes {
            content: self.content && other.content,
            aux_data: self.aux_data && other.aux_data,
        }
    }

    fn with_computable(&self) -> (r: Self) {
        FileAttributes { content: self.content, aux_data: self.aux_data || self.content }
    }
}

/// File attributes only gain what is computable: the content never changes,
/// and aux data is added exactly when the content is there.
pub proof fn lemma_file_with_computable(x: FileAttributes)
    ensures
        x.with_computable_spec().has_spec(x),
        x.with_computable_spec().content == x.content,
        x.with_computable_spec().aux_data <==> (x.aux_data || x.content),
        !x.content ==> x.with_computable_spec() == x,
        FileAttributes::none_spec().with_computable_spec() == FileAttributes::none_spec(),
{
}

} // verus!
