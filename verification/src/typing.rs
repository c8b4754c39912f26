//! The closed set of value types, and equality on them with a wildcard.

use vstd::prelude::*;

verus! {

/// The type of a value of the language.
#[derive(Debug, PartialEq, Eq, PartialOrd, Ord)]
pub enum Type {
    Any,
    Nothing,
    Integer,
    Float,
    Boolean,
    String,
    Function(FunctionType),
    Record(RecordType),
    Struct(StructType),
}

#[derive(Debug, PartialEq, Eq, PartialOrd, Ord)]
pub struct FunctionType {
    pub args: Vec<Type>,
    pub output_type: Box<Type>,
}

#[derive(Debug, PartialEq, Eq, PartialOrd, Ord)]
pub struct RecordType {
    pub name: String,
    pub fields: Vec<Type>,
}

#[derive(Debug, PartialEq, Eq, PartialOrd, Ord)]
pub struct StructType {
    pub name: String,
    pub fields: Vec<(String, Type)>,
}

/// What a [`Type`] is, as a mathematical value: names are sequences of
/// characters and field lists are sequences.
pub ghost enum TypeView {
    Any,
    Nothing,
    Integer,
    Float,
    Boolean,
    String,
    Function { args: Seq<TypeView>, output: Box<TypeView> },
    Record { name: Seq<char>, items: Seq<TypeView> },
    Struct { name: Seq<char>, fields: Seq<(Seq<char>, TypeView)> },
}

impl Type {
    pub open spec fn model(&self) -> TypeView
        decreases self,
    {
        match self {
            Type::Any => TypeView::Any,
            Type::Nothing => TypeView::Nothing,
            Type::Integer => TypeView::Integer,
            Type::Float => TypeView::Float,
            Type::Boolean => TypeView::Boolean,
            Type::String => TypeView::String,
            Type::Function(f) => TypeView::Function {
                args: Seq::new(
                    f.args.len() as nat,
                    |i: int|
                        if 0 <= i < f.args.len() {
                            f.args[i].model()
                        } else {
                            TypeView::Any
                        },
                ),
                output: Box::new((*f.output_type).model()),
            },
            Type::Record(r) => TypeView::Record {
                name: r.name@,
                items: Seq::new(
                    r.fields.len() as nat,
                    |i: int|
                        if 0 <= i < r.fields.len() {
                            r.fields[i].model()
                        } else {
                            TypeView::Any
                        },
                ),
            },
            Type::Struct(s) => TypeView::Struct {
                name: s.name@,
                fields: Seq::new(
                    s.fields.len() as nat,
                    |i: int|
                        if 0 <= i < s.fields.len() {
                            (s.fields[i].0@, s.fields[i].1.model())
                        } else {
                            (Seq::empty(), TypeView::Any)
                        },
                ),
            },
        }
    }
}

impl View for Type {
    type V = TypeView;

    open spec fn view(&self) -> TypeView {
        self.model()
    }
}

/// The views of a list of types, in order.
pub open spec fn types_view(types: Seq<Type>) -> Seq<TypeView> {
    Seq::new(types.len(), |i: int| types[i]@)
}

/// The views of a list of named fields, in order.
pub open spec fn fields_view(fields: Seq<(String, Type)>) -> Seq<(Seq<char>, TypeView)> {
    Seq::new(fields.len(), |i: int| (fields[i].0@, fields[i].1@))
}

pub proof fn lemma_type_view(ty: Type)
    ensures
        ty matches Type::Function(f) ==> ty@ == (TypeView::Function {
            args: types_view(f.args@),
            output: Box::new(f.output_type@),
        }),
        ty matches Type::Record(r) ==> ty@ == (TypeView::Record {
            name: r.name@,
            items: types_view(r.fields@),
        }),
        ty matches Type::Struct(s) ==> ty@ == (TypeView::Struct {
            name: s.name@,
            fields: fields_view(s.fields@),
        }),
{
    match ty {
        Type::Function(f) => {
            assert(ty@->Function_args =~= types_view(f.args@));
        },
        Type::Record(r) => {
            assert(ty@->Record_items =~= types_view(r.fields@));
        },
        Type::Struct(s) => {
            assert(ty@->Struct_fields =~= fields_view(s.fields@));
        },
        _ => {},
    }
}

/// Whether two lists of types are the same, one by one.
pub fn same_types(a: &Vec<Type>, b: &Vec<Type>) -> (same: bool)
    ensures
        same == (types_view(a@) == types_view(b@)),
    decreases a, 0nat,
{
    if a.len() != b.len() {
        assert(types_view(a@).len() != types_view(b@).len());
        return false;
    }
    let mut i: usize = 0;
    while i < a.len()
        invariant
            i <= a.len(),
            a.len() == b.len(),
            forall|j: int| 0 <= j < i ==> a[j]@ == b[j]@,
        decreases a.len() - i,
    {
        if !a[i].same(&b[i]) {
            assert(types_view(a@)[i as int] != types_view(b@)[i as int]);
            return false;
        }
        i += 1;
    }
    assert(types_view(a@) =~= types_view(b@));
    true
}

/// Whether two lists of named fields are the same, one by one.
pub fn same_fields(a: &Vec<(String, Type)>, b: &Vec<(String, Type)>) -> (same: bool)
    ensures
        same == (fields_view(a@) == fields_view(b@)),
    decreases a, 0nat,
{
    if a.len() != b.len() {
        assert(fields_view(a@).len() != fields_view(b@).len());
        return false;
    }
    let mut i: usize = 0;
    while i < a.len()
        invariant
            i <= a.len(),
            a.len() == b.len(),
            forall|j: int| 0 <= j < i ==> a[j].0@ == b[j].0@ && a[j].1@ == b[j].1@,
        decreases a.len() - i,
    {
        if a[i].0 != b[i].0 || !a[i].1.same(&b[i].1) {
            assert(fields_view(a@)[i as int] != fields_view(b@)[i as int]);
            return false;
        }
        i += 1;
    }
    assert(fields_view(a@) =~= fields_view(b@));
    true
}

/// A copy of a list of types.
pub fn copy_types(types: &Vec<Type>) -> (copy: Vec<Type>)
    ensures
        types_view(copy@) == types_view(types@),
    decreases types, 0nat,
{
    let mut copy: Vec<Type> = Vec::new();
    let mut i: usize = 0;
    while i < types.len()
        invariant
            i <= types.len(),
            copy.len() == i,
            forall|j: int| 0 <= j < i ==> copy[j]@ == types[j]@,
        decreases types.len() - i,
    {
        copy.push(types[i].clone());
        i += 1;
    }
    assert(types_view(copy@) =~= types_view(types@));
    copy
}

/// A copy of a list of named fields.
pub fn copy_fields(fields: &Vec<(String, Type)>) -> (copy: Vec<(String, Type)>)
    ensures
        fields_view(copy@) == fields_view(fields@),
    decreases fields, 0nat,
{
    let mut copy: Vec<(String, Type)> = Vec::new();
    let mut i: usize = 0;
    while i < fields.len()
        invariant
            i <= fields.len(),
            copy.len() == i,
            forall|j: int| 0 <= j < i ==> copy[j].0@ == fields[j].0@ && copy[j].1@ == fields[j].1@,
        decreases fields.len() - i,
    {
        copy.push((fields[i].0.clone(), fields[i].1.clone()));
        i += 1;
    }
    assert(fields_view(copy@) =~= fields_view(fields@));
    copy
}

impl Clone for Type {
    fn clone(&self) -> (copy: Self)
        ensures
            copy@ == self@,
        decreases self, 1nat,
    {
        proof {
            lemma_type_view(*self);
        }
        let copy = match self {
            Type::Any => Type::Any,
            Type::Nothing => Type::Nothing,
            Type::Integer => Type::Integer,
            Type::Float => Type::Float,
            Type::Boolean => Type::Boolean,
            Type::String => Type::String,
            Type::Function(f) => Type::Function(
                FunctionType {
                    args: copy_types(&f.args),
                    output_type: Box::new((*f.output_type).clone()),
                },
            ),
            Type::Record(r) => Type::Record(
                RecordType { name: r.name.clone(), fields: copy_types(&r.fields) },
            ),
            Type::Struct(s) => Type::Struct(
                StructType { name: s.name.clone(), fields: copy_fields(&s.fields) },
            ),
        };
        proof {
            lemma_type_view(copy);
        }
        copy
    }
}

impl Type {
    /// Structural equality.
    pub fn same(&self, other: &Self) -> (same: bool)
        ensures
            same == (self@ == other@),
        decreases self, 1nat,
    {
        proof {
            lemma_type_view(*self);
            lemma_type_view(*other);
        }
        match (self, other) {
            (Type::Any, Type::Any) => true,
            (Type::Nothing, Type::Nothing) => true,
            (Type::Integer, Type::Integer) => true,
            (Type::Float, Type::Float) => true,
            (Type::Boolean, Type::Boolean) => true,
            (Type::String, Type::String) => true,
            (Type::Function(f), Type::Function(g)) => {
                same_types(&f.args, &g.args) && (*f.output_type).same(&*g.output_type)
            },
            (Type::Record(r), Type::Record(s)) => {
                r.name == s.name && same_types(&r.fields, &s.fields)
            },
            (Type::Struct(r), Type::Struct(s)) => {
                r.name == s.name && same_fields(&r.fields, &s.fields)
            },
            _ => false,
        }
    }

    /// Equality in which `any` on either side matches every type.
    pub open spec fn spec_compare(a: TypeView, b: TypeView) -> bool {
        a is Any || b is Any || a == b
    }

    #[must_use]
    pub fn compare(&self, other: &Self) -> (matching: bool)
        ensures
            matching == Self::spec_compare(self@, other@),
    {
        if matches!(self, Type::Any) || matches!(other, Type::Any) {
            true
        } else {
            self.same(other)
        }
    }
}

/// `any` matches every type, on either side.
pub proof fn lemma_any_matches_all(ty: TypeView)
    ensures
        Type::spec_compare(TypeView::Any, ty),
        Type::spec_compare(ty, TypeView::Any),
{
}

/// Every type matches itself, and two types without `any` match only when equal.
pub proof fn lemma_compare_is_equality_without_any(a: TypeView, b: TypeView)
    ensures
        Type::spec_compare(a, a),
        Type::spec_compare(a, b) == Type::spec_compare(b, a),
        !(a is Any) && !(b is Any) ==> (Type::spec_compare(a, b) <==> a == b),
{
}

/// The type of the language that stands for a host type.
pub trait AsType {
    spec fn spec_as_type() -> TypeView;

    fn as_type() -> (ty: Type)
        ensures
            ty@ == Self::spec_as_type(),
    ;
}

impl AsType for bool {
    open spec fn spec_as_type() -> TypeView {
        TypeView::Boolean
    }

    fn as_type() -> Type {
        Type::Boolean
    }
}

impl AsType for i64 {
    open spec fn spec_as_type() -> TypeView {
        TypeView::Integer
    }

    fn as_type() -> Type {
        Type::Integer
    }
}

impl AsType for crate::shared::Float {
    open spec fn spec_as_type() -> TypeView {
        TypeView::Float
    }

    fn as_type() -> Type {
        Type::Float
    }
}

impl AsType for String {
    open spec fn spec_as_type() -> TypeView {
        TypeView::String
    }

    fn as_type() -> Type {
        Type::String
    }
}

impl AsType for () {
    open spec fn spec_as_type() -> TypeView {
        TypeView::Nothing
    }

    fn as_type() -> Type {
        Type::Nothing
    }
}

} // verus!
