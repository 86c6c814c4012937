//! The parts of Rust type syntax that repository methods are analysed by:
//! paths with generic arguments, tuples, `impl Trait` bounds, references,
//! slices and arrays, and the generic parameters and `where` clauses of a
//! method signature.
use vstd::prelude::*;
use crate::text::str_eq;

verus! {

/// A Rust type, as written in a method signature.
#[derive(Debug)]
pub enum TypeExpr {
    /// `a::b::C<..>`: the path's segments.
    Path(Vec<PathSegment>),
    /// `(A, B, ..)`; `()` is the empty tuple.
    Tuple(Vec<TypeExpr>),
    /// `impl A + B`: the bounds.
    ImplTrait(Vec<TypeBound>),
    /// `&T` or `&mut T`.
    Reference(bool, Box<TypeExpr>),
    /// `[T]`.
    Slice(Box<TypeExpr>),
    /// `[T; N]`.
    Array(Box<TypeExpr>),
    /// Any other type syntax (function pointers, trait objects, `_`, ...).
    Other,
}

/// One segment of a path: its identifier and its arguments.
#[derive(Debug)]
pub struct PathSegment {
    pub ident: String,
    pub arguments: PathArguments,
}

/// The arguments of a path segment.
#[derive(Debug)]
pub enum PathArguments {
    Bare,
    /// `<..>`.
    AngleBracketed(Vec<GenericArgument>),
    /// `(..) -> ..`, as in `Fn(A) -> B`.
    Parenthesized,
}

/// One argument between angle brackets.
#[derive(Debug)]
pub enum GenericArgument {
    Type(TypeExpr),
    /// `Name = Type`, as in `Iterator<Item = T>`.
    AssocType(String, TypeExpr),
    /// Lifetimes, constants and constraints.
    Other,
}

/// One bound of an `impl` type, a generic parameter or a `where` predicate.
#[derive(Debug)]
pub enum TypeBound {
    /// A trait bound: the trait's path.
    Trait(Vec<PathSegment>),
    /// A lifetime or another kind of bound.
    Other,
}

/// One generic parameter of a method.
#[derive(Debug)]
pub enum GenericParam {
    /// A type parameter with its inline bounds.
    Type(String, Vec<TypeBound>),
    /// A lifetime or constant parameter.
    Other,
}

/// One predicate of a `where` clause.
#[derive(Debug)]
pub enum WherePredicate {
    /// `T: Bounds`.
    Type(TypeExpr, Vec<TypeBound>),
    /// A lifetime predicate.
    Other,
}

/// The generic parameters and the `where` clause of a method.
#[derive(Debug)]
pub struct Generics {
    pub params: Vec<GenericParam>,
    /// `None` when the method has no `where` clause.
    pub where_clause: Option<Vec<WherePredicate>>,
}

/// The abstract content of a type.
pub enum TypeView {
    Path(Seq<SegmentView>),
    Tuple(Seq<TypeView>),
    ImplTrait(Seq<BoundView>),
    Reference(bool, Box<TypeView>),
    Slice(Box<TypeView>),
    Array(Box<TypeView>),
    Other,
}

/// The abstract content of a path segment.
pub struct SegmentView {
    pub ident: Seq<char>,
    pub arguments: ArgumentsView,
}

/// The abstract content of a segment's arguments.
pub enum ArgumentsView {
    Bare,
    AngleBracketed(Seq<ArgumentView>),
    Parenthesized,
}

/// The abstract content of a generic argument.
pub enum ArgumentView {
    Type(TypeView),
    AssocType(Seq<char>, TypeView),
    Other,
}

/// The abstract content of a bound.
pub enum BoundView {
    Trait(Seq<SegmentView>),
    Other,
}

/// The abstract contents of a path.
pub open spec fn path_view(segs: Seq<PathSegment>) -> Seq<SegmentView>
    decreases segs,
{
    Seq::new(
        segs.len(),
        |i: int|
            if 0 <= i < segs.len() {
                segs[i].segment_view()
            } else {
                SegmentView { ident: Seq::empty(), arguments: ArgumentsView::Bare }
            },
    )
}

impl TypeExpr {
    /// The abstract content of this type.
    pub open spec fn type_view(&self) -> TypeView
        decreases self,
    {
        match self {
            TypeExpr::Path(segs) => TypeView::Path(path_view(segs@)),
            TypeExpr::Tuple(elems) => TypeView::Tuple(
                Seq::new(
                    elems@.len(),
                    |i: int| if 0 <= i < elems@.len() { elems@[i].type_view() } else { TypeView::Other },
                ),
            ),
            TypeExpr::ImplTrait(bounds) => TypeView::ImplTrait(
                Seq::new(
                    bounds@.len(),
                    |i: int| if 0 <= i < bounds@.len() { bounds@[i].bound_view() } else { BoundView::Other },
                ),
            ),
            TypeExpr::Reference(m, e) => TypeView::Reference(*m, Box::new(e.type_view())),
            TypeExpr::Slice(e) => TypeView::Slice(Box::new(e.type_view())),
            TypeExpr::Array(e) => TypeView::Array(Box::new(e.type_view())),
            TypeExpr::Other => TypeView::Other,
        }
    }
}

impl PathSegment {
    /// The abstract content of this segment.
    pub open spec fn segment_view(&self) -> SegmentView
        decreases self,
    {
        SegmentView { ident: self.ident@, arguments: self.arguments.arguments_view() }
    }
}

impl PathArguments {
    /// The abstract content of these arguments.
    pub open spec fn arguments_view(&self) -> ArgumentsView
        decreases self,
    {
        match self {
            PathArguments::Bare => ArgumentsView::Bare,
            PathArguments::AngleBracketed(args) => ArgumentsView::AngleBracketed(
                Seq::new(
                    args@.len(),
                    |i: int| if 0 <= i < args@.len() { args@[i].argument_view() } else { ArgumentView::Other },
                ),
            ),
            PathArguments::Parenthesized => ArgumentsView::Parenthesized,
        }
    }
}

impl GenericArgument {
    /// The abstract content of this argument.
    pub open spec fn argument_view(&self) -> ArgumentView
        decreases self,
    {
        match self {
            GenericArgument::Type(t) => ArgumentView::Type(t.type_view()),
            GenericArgument::AssocType(n, t) => ArgumentView::AssocType(n@, t.type_view()),
            GenericArgument::Other => ArgumentView::Other,
        }
    }
}

impl TypeBound {
    /// The abstract content of this bound.
    pub open spec fn bound_view(&self) -> BoundView
        decreases self,
    {
        match self {
            TypeBound::Trait(p) => BoundView::Trait(path_view(p@)),
            TypeBound::Other => BoundView::Other,
        }
    }
}

impl View for TypeExpr {
    type V = TypeView;

    open spec fn view(&self) -> TypeView {
        self.type_view()
    }
}

/// An exact copy of a path.
pub fn copy_path(segs: &Vec<PathSegment>) -> (r: Vec<PathSegment>)
    ensures
        path_view(r@) == path_view(segs@),
    decreases segs,
{
    let mut out: Vec<PathSegment> = Vec::new();
    let mut i: usize = 0;
    while i < segs.len()
        invariant
            i <= segs@.len(),
            out@.len() == i,
            forall|j: int| 0 <= j < i ==> (#[trigger] out@[j]).segment_view() == segs@[j].segment_view(),
        decreases segs@.len() - i,
    {
        proof {
            assert(decreases_to!(*segs => segs@));
            assert(decreases_to!(segs@ => segs@[i as int]));
        }
        let c = segs[i].copy();
        out.push(c);
        i = i + 1;
    }
    assert(path_view(out@) =~= path_view(segs@));
    out
}

/// Whether two paths have the same content.
pub fn paths_equal(a: &Vec<PathSegment>, b: &Vec<PathSegment>) -> (r: bool)
    ensures
        r == (path_view(a@) == path_view(b@)),
    decreases a,
{
    if a.len() != b.len() {
        assert(path_view(a@).len() != path_view(b@).len());
        return false;
    }
    let mut i: usize = 0;
    while i < a.len()
        invariant
            i <= a@.len(),
            a@.len() == b@.len(),
            forall|j: int| 0 <= j < i ==> (#[trigger] a@[j]).segment_view() == b@[j].segment_view(),
        decreases a@.len() - i,
    {
        proof {
            assert(decreases_to!(*a => a@));
            assert(decreases_to!(a@ => a@[i as int]));
        }
        if !a[i].same_as(&b[i]) {
            assert(path_view(a@)[i as int] != path_view(b@)[i as int]);
            return false;
        }
        i = i + 1;
    }
    assert(path_view(a@) =~= path_view(b@));
    true
}

impl PathSegment {
    /// An exact copy.
    pub fn copy(&self) -> (r: PathSegment)
        ensures
            r.segment_view() == self.segment_view(),
        decreases self,
    {
        PathSegment { ident: self.ident.clone(), arguments: self.arguments.copy() }
    }

    /// Whether the two segments have the same content.
    pub fn same_as(&self, other: &PathSegment) -> (r: bool)
        ensures
            r == (self.segment_view() == other.segment_view()),
        decreases self,
    {
        str_eq(self.ident.as_str(), other.ident.as_str()) && self.arguments.same_as(&other.arguments)
    }
}

impl PathArguments {
    /// An exact copy.
    pub fn copy(&self) -> (r: PathArguments)
        ensures
            r.arguments_view() == self.arguments_view(),
        decreases self,
    {
        match self {
            PathArguments::Bare => PathArguments::Bare,
            PathArguments::Parenthesized => PathArguments::Parenthesized,
            PathArguments::AngleBracketed(args) => {
                let mut out: Vec<GenericArgument> = Vec::new();
                let mut i: usize = 0;
                while i < args.len()
                    invariant
                        i <= args@.len(),
                        *self == PathArguments::AngleBracketed(*args),
                        out@.len() == i,
                        forall|j: int| 0 <= j < i ==> (#[trigger] out@[j]).argument_view() == args@[j].argument_view(),
                    decreases args@.len() - i,
                {
                    proof {
                        assert(decreases_to!(*self => self->AngleBracketed_0));
                        assert(decreases_to!(*args => args@));
                        assert(decreases_to!(args@ => args@[i as int]));
                    }
                    let c = args[i].copy();
                    out.push(c);
                    i = i + 1;
                }
                let r = PathArguments::AngleBracketed(out);
                assert(r.arguments_view()->AngleBracketed_0 =~= self.arguments_view()->AngleBracketed_0);
                r
            },
        }
    }

    /// Whether the two argument lists have the same content.
    pub fn same_as(&self, other: &PathArguments) -> (r: bool)
        ensures
            r == (self.arguments_view() == other.arguments_view()),
        decreases self,
    {
        match (self, other) {
            (PathArguments::Bare, PathArguments::Bare) => true,
            (PathArguments::Parenthesized, PathArguments::Parenthesized) => true,
            (PathArguments::AngleBracketed(a), PathArguments::AngleBracketed(b)) => {
                let ghost va = self.arguments_view()->AngleBracketed_0;
                let ghost vb = other.arguments_view()->AngleBracketed_0;
                if a.len() != b.len() {
                    assert(va.len() != vb.len());
                    return false;
                }
                let mut i: usize = 0;
                while i < a.len()
                    invariant
                        i <= a@.len(),
                        a@.len() == b@.len(),
                        *self == PathArguments::AngleBracketed(*a),
                        *other == PathArguments::AngleBracketed(*b),
                        va == self.arguments_view()->AngleBracketed_0,
                        vb == other.arguments_view()->AngleBracketed_0,
                        forall|j: int| 0 <= j < i ==> (#[trigger] a@[j]).argument_view() == b@[j].argument_view(),
                    decreases a@.len() - i,
                {
                    proof {
                        assert(decreases_to!(*self => self->AngleBracketed_0));
                        assert(decreases_to!(*a => a@));
                        assert(decreases_to!(a@ => a@[i as int]));
                    }
                    if !a[i].same_as(&b[i]) {
                        assert(va[i as int] != vb[i as int]);
                        return false;
                    }
                    i = i + 1;
                }
                assert(va =~= vb);
                true
            },
            _ => false,
        }
    }
}

impl GenericArgument {
    /// An exact copy.
    pub fn copy(&self) -> (r: GenericArgument)
        ensures
            r.argument_view() == self.argument_view(),
        decreases self,
    {
        match self {
            GenericArgument::Type(t) => GenericArgument::Type(t.copy()),
            GenericArgument::AssocType(n, t) => GenericArgument::AssocType(n.clone(), t.copy()),
            GenericArgument::Other => GenericArgument::Other,
        }
    }

    /// Whether the two arguments have the same content.
    pub fn same_as(&self, other: &GenericArgument) -> (r: bool)
        ensures
            r == (self.argument_view() == other.argument_view()),
        decreases self,
    {
        match (self, other) {
            (GenericArgument::Type(a), GenericArgument::Type(b)) => a.same_as(b),
            (GenericArgument::AssocType(n, a), GenericArgument::AssocType(m, b)) => {
                str_eq(n.as_str(), m.as_str()) && a.same_as(b)
            },
            (GenericArgument::Other, GenericArgument::Other) => true,
            _ => false,
        }
    }
}

impl TypeBound {
    /// An exact copy.
    pub fn copy(&self) -> (r: TypeBound)
        ensures
            r.bound_view() == self.bound_view(),
        decreases self,
    {
        match self {
            TypeBound::Trait(p) => TypeBound::Trait(copy_path(p)),
            TypeBound::Other => TypeBound::Other,
        }
    }

    /// Whether the two bounds have the same content.
    pub fn same_as(&self, other: &TypeBound) -> (r: bool)
        ensures
            r == (self.bound_view() == other.bound_view()),
        decreases self,
    {
        match (self, other) {
            (TypeBound::Trait(a), TypeBound::Trait(b)) => paths_equal(a, b),
            (TypeBound::Other, TypeBound::Other) => true,
            _ => false,
        }
    }
}

impl TypeExpr {
    /// An exact copy.
    pub fn copy(&self) -> (r: TypeExpr)
        ensures
            r@ == self@,
        decreases self,
    {
        match self {
            TypeExpr::Path(segs) => TypeExpr::Path(copy_path(segs)),
            TypeExpr::Tuple(elems) => {
                let mut out: Vec<TypeExpr> = Vec::new();
                let mut i: usize = 0;
                while i < elems.len()
                    invariant
                        i <= elems@.len(),
                        *self == TypeExpr::Tuple(*elems),
                        out@.len() == i,
                        forall|j: int| 0 <= j < i ==> (#[trigger] out@[j])@ == elems@[j]@,
                    decreases elems@.len() - i,
                {
                    proof {
                        assert(decreases_to!(*self => self->Tuple_0));
                        assert(decreases_to!(*elems => elems@));
                        assert(decreases_to!(elems@ => elems@[i as int]));
                    }
                    let c = elems[i].copy();
                    out.push(c);
                    i = i + 1;
                }
                let r = TypeExpr::Tuple(out);
                assert(r@->Tuple_0 =~= self@->Tuple_0);
                r
            },
            TypeExpr::ImplTrait(bounds) => {
                let mut out: Vec<TypeBound> = Vec::new();
                let mut i: usize = 0;
                while i < bounds.len()
                    invariant
                        i <= bounds@.len(),
                        *self == TypeExpr::ImplTrait(*bounds),
                        out@.len() == i,
                        forall|j: int| 0 <= j < i ==> (#[trigger] out@[j]).bound_view() == bounds@[j].bound_view(),
                    decreases bounds@.len() - i,
                {
                    proof {
                        assert(decreases_to!(*self => self->ImplTrait_0));
                        assert(decreases_to!(*bounds => bounds@));
                        assert(decreases_to!(bounds@ => bounds@[i as int]));
                    }
                    let c = bounds[i].copy();
                    out.push(c);
                    i = i + 1;
                }
                let r = TypeExpr::ImplTrait(out);
                assert(r@->ImplTrait_0 =~= self@->ImplTrait_0);
                r
            },
            TypeExpr::Reference(m, e) => TypeExpr::Reference(*m, Box::new((**e).copy())),
            TypeExpr::Slice(e) => TypeExpr::Slice(Box::new((**e).copy())),
            TypeExpr::Array(e) => TypeExpr::Array(Box::new((**e).copy())),
            TypeExpr::Other => TypeExpr::Other,
        }
    }

    /// Whether the two types have the same content.
    pub fn same_as(&self, other: &TypeExpr) -> (r: bool)
        ensures
            r == (self@ == other@),
        decreases self,
    {
        match (self, other) {
            (TypeExpr::Path(a), TypeExpr::Path(b)) => paths_equal(a, b),
            (TypeExpr::Tuple(a), TypeExpr::Tuple(b)) => {
                let ghost va = self@->Tuple_0;
                let ghost vb = other@->Tuple_0;
                if a.len() != b.len() {
                    assert(va.len() != vb.len());
                    return false;
                }
                let mut i: usize = 0;
                while i < a.len()
                    invariant
                        i <= a@.len(),
                        a@.len() == b@.len(),
                        *self == TypeExpr::Tuple(*a),
                        *other == TypeExpr::Tuple(*b),
                        va == self@->Tuple_0,
                        vb == other@->Tuple_0,
                        forall|j: int| 0 <= j < i ==> (#[trigger] a@[j])@ == b@[j]@,
                    decreases a@.len() - i,
                {
                    proof {
                        assert(decreases_to!(*self => self->Tuple_0));
                        assert(decreases_to!(*a => a@));
                        assert(decreases_to!(a@ => a@[i as int]));
                    }
                    if !a[i].same_as(&b[i]) {
                        assert(va[i as int] != vb[i as int]);
                        return false;
                    }
                    i = i + 1;
                }
                assert(va =~= vb);
                true
            },
            (TypeExpr::ImplTrait(a), TypeExpr::ImplTrait(b)) => {
                let ghost va = self@->ImplTrait_0;
                let ghost vb = other@->ImplTrait_0;
                if a.len() != b.len() {
                    assert(va.len() != vb.len());
                    return false;
                }
                let mut i: usize = 0;
                while i < a.len()
                    invariant
                        i <= a@.len(),
                        a@.len() == b@.len(),
                        *self == TypeExpr::ImplTrait(*a),
                        *other == TypeExpr::ImplTrait(*b),
                        va == self@->ImplTrait_0,
                        vb == other@->ImplTrait_0,
                        forall|j: int| 0 <= j < i ==> (#[trigger] a@[j]).bound_view() == b@[j].bound_view(),
                    decreases a@.len() - i,
                {
                    proof {
                        assert(decreases_to!(*self => self->ImplTrait_0));
                        assert(decreases_to!(*a => a@));
                        assert(decreases_to!(a@ => a@[i as int]));
                    }
                    if !a[i].same_as(&b[i]) {
                        assert(va[i as int] != vb[i as int]);
                        return false;
                    }
                    i = i + 1;
                }
                assert(va =~= vb);
                true
            },
            (TypeExpr::Reference(m, a), TypeExpr::Reference(n, b)) => *m == *n && (**a).same_as(&**b),
            (TypeExpr::Slice(a), TypeExpr::Slice(b)) => (**a).same_as(&**b),
            (TypeExpr::Array(a), TypeExpr::Array(b)) => (**a).same_as(&**b),
            (TypeExpr::Other, TypeExpr::Other) => true,
            _ => false,
        }
    }
}

/// Index of the first element of `s` that satisfies `p`; `s.len()` when none does.
pub open spec fn first_match<A>(s: Seq<A>, p: spec_fn(A) -> bool) -> nat
    decreases s.len(),
{
    if s.len() == 0 {
        0
    } else if p(s[0]) {
        0
    } else {
        1 + first_match(s.drop_first(), p)
    }
}

/// `first_match` is the index before which nothing matches and at which something does.
pub proof fn lemma_first_match<A>(s: Seq<A>, p: spec_fn(A) -> bool, i: int)
    requires
        0 <= i <= s.len(),
        forall|j: int| 0 <= j < i ==> !p(#[trigger] s[j]),
        i < s.len() ==> p(s[i]),
    ensures
        first_match(s, p) == i,
    decreases i,
{
    if i > 0 {
        assert forall|j: int| 0 <= j < i - 1 implies !p(#[trigger] s.drop_first()[j]) by {
            assert(s.drop_first()[j] == s[j + 1]);
        }
        if i < s.len() {
            assert(s.drop_first()[i - 1] == s[i]);
        }
        lemma_first_match(s.drop_first(), p, i - 1);
    }
}

/// `first_match` is at most the length, and below it the element matches.
pub proof fn lemma_first_match_found<A>(s: Seq<A>, p: spec_fn(A) -> bool)
    ensures
        first_match(s, p) <= s.len(),
        first_match(s, p) < s.len() ==> p(s[first_match(s, p) as int]),
    decreases s.len(),
{
    if s.len() > 0 && !p(s[0]) {
        lemma_first_match_found(s.drop_first(), p);
        let k = first_match(s.drop_first(), p);
        if k < s.drop_first().len() {
            assert(s.drop_first()[k as int] == s[k + 1int]);
        }
    }
}

/// Whether the last segment of the path `segs` is the identifier `name`.
pub open spec fn ends_with_ident(segs: Seq<PathSegment>, name: Seq<char>) -> bool {
    segs.len() > 0 && segs.last().ident@ == name
}

/// Whether a bound is a trait bound whose path ends with `name`.
pub open spec fn is_trait_named(b: TypeBound, name: Seq<char>) -> bool {
    b matches TypeBound::Trait(p) && ends_with_ident(p@, name)
}

/// Whether an argument is `Item = ..`.
pub open spec fn is_item_arg(a: GenericArgument) -> bool {
    a matches GenericArgument::AssocType(n, _) && n@ == "Item"@
}

/// Whether an argument is a type.
pub open spec fn is_type_arg(a: GenericArgument) -> bool {
    a is Type
}

/// Whether a bound is a trait bound ending with `name` whose last segment
/// has angle-bracket arguments among which is `Item = ..`.
pub open spec fn is_bound_with_item(b: TypeBound, name: Seq<char>) -> bool {
    &&& is_trait_named(b, name)
    &&& b->Trait_0@.last().arguments is AngleBracketed
    &&& {
        let args = b->Trait_0@.last().arguments->AngleBracketed_0@;
        first_match(args, |a: GenericArgument| is_item_arg(a)) < args.len()
    }
}

/// The `Item` type of a bound that `is_bound_with_item` accepts.
pub open spec fn bound_item(b: TypeBound) -> TypeExpr {
    let args = b->Trait_0@.last().arguments->AngleBracketed_0@;
    args[first_match(args, |a: GenericArgument| is_item_arg(a)) as int]->AssocType_1
}

/// Whether the path's last segment is `name`.
pub fn path_ends_with(path: &Vec<PathSegment>, name: &str) -> (r: bool)
    ensures
        r == ends_with_ident(path@, name@),
{
    if path.len() == 0 {
        false
    } else {
        str_eq(path[path.len() - 1].ident.as_str(), name)
    }
}

/// Whether the bound is a trait bound whose path ends with `name`.
pub fn bound_is_trait_named(b: &TypeBound, name: &str) -> (r: bool)
    ensures
        r == is_trait_named(*b, name@),
{
    match b {
        TypeBound::Trait(p) => path_ends_with(p, name),
        TypeBound::Other => false,
    }
}

/// Index of the first `Item = ..` argument, or `args.len()`.
pub fn find_item_arg(args: &Vec<GenericArgument>) -> (r: usize)
    ensures
        r == first_match(args@, |a: GenericArgument| is_item_arg(a)),
        r <= args@.len(),
        r < args@.len() ==> is_item_arg(args@[r as int]),
{
    let mut i: usize = 0;
    while i < args.len()
        invariant
            i <= args@.len(),
            forall|j: int| 0 <= j < i ==> !is_item_arg(#[trigger] args@[j]),
        decreases args@.len() - i,
    {
        let hit = match &args[i] {
            GenericArgument::AssocType(n, _) => str_eq(n.as_str(), "Item"),
            _ => false,
        };
        if hit {
            proof { lemma_first_match(args@, |a: GenericArgument| is_item_arg(a), i as int); }
            return i;
        }
        i = i + 1;
    }
    proof { lemma_first_match(args@, |a: GenericArgument| is_item_arg(a), i as int); }
    i
}

/// The `Item` type of the first bound that `is_bound_with_item(_, name)`
/// accepts, if there is one.
pub fn find_bound_item<'a>(bounds: &'a Vec<TypeBound>, name: &str) -> (r: Option<&'a TypeExpr>)
    ensures
        ({
            let m = first_match(bounds@, |b: TypeBound| is_bound_with_item(b, name@));
            if m < bounds@.len() {
                r matches Some(t) && *t == bound_item(bounds@[m as int])
            } else {
                r is None
            }
        }),
{
    let mut i: usize = 0;
    while i < bounds.len()
        invariant
            i <= bounds@.len(),
            forall|j: int| 0 <= j < i ==> !is_bound_with_item(#[trigger] bounds@[j], name@),
        decreases bounds@.len() - i,
    {
        if let TypeBound::Trait(p) = &bounds[i] {
            if path_ends_with(p, name) {
                if let PathArguments::AngleBracketed(args) = &p[p.len() - 1].arguments {
                    let k = find_item_arg(args);
                    if k < args.len() {
                        if let GenericArgument::AssocType(_, t) = &args[k] {
                            proof {
                                lemma_first_match(bounds@, |b: TypeBound| is_bound_with_item(b, name@), i as int);
                            }
                            return Some(t);
                        }
                    }
                }
            }
        }
        i = i + 1;
    }
    proof { lemma_first_match(bounds@, |b: TypeBound| is_bound_with_item(b, name@), i as int); }
    None
}

/// Index of the first type argument, or `args.len()`.
pub fn find_type_arg(args: &Vec<GenericArgument>) -> (r: usize)
    ensures
        r == first_match(args@, |a: GenericArgument| is_type_arg(a)),
        r <= args@.len(),
        r < args@.len() ==> is_type_arg(args@[r as int]),
{
    let mut i: usize = 0;
    while i < args.len()
        invariant
            i <= args@.len(),
            forall|j: int| 0 <= j < i ==> !is_type_arg(#[trigger] args@[j]),
        decreases args@.len() - i,
    {
        if let GenericArgument::Type(_) = &args[i] {
            proof { lemma_first_match(args@, |a: GenericArgument| is_type_arg(a), i as int); }
            return i;
        }
        i = i + 1;
    }
    proof { lemma_first_match(args@, |a: GenericArgument| is_type_arg(a), i as int); }
    i
}

} // verus!
