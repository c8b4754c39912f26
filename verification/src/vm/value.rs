//! Values, and the objects that values refer to.

pub use crate::shared::Float;
use crate::typing::{copy_types, fields_view, types_view, Type, TypeView};
use crate::vm::chunk::{Chunk, ChunkView};
use vstd::prelude::*;

verus! {

/// A value on the stack, in a slot or in a constant pool. An object is named by
/// its place in the heap, so two values are the same object exactly when they
/// are equal.
#[derive(Debug, Clone, Copy, PartialEq, Eq, Structural)]
pub enum Value {
    Nothing,
    Integer(i64),
    Float(Float),
    Boolean(bool),
    Object(usize),
}

/// The name, the parameter types and the result type of a function.
#[derive(Debug, PartialEq, Eq)]
pub struct FunctionMetadata {
    pub name: String,
    pub args: Vec<Type>,
    pub output: Type,
}

pub ghost struct FunctionMetadataView {
    pub name: Seq<char>,
    pub args: Seq<TypeView>,
    pub output: TypeView,
}

impl View for FunctionMetadata {
    type V = FunctionMetadataView;

    open spec fn view(&self) -> FunctionMetadataView {
        FunctionMetadataView {
            name: self.name@,
            args: types_view(self.args@),
            output: self.output@,
        }
    }
}

impl Clone for FunctionMetadata {
    fn clone(&self) -> (copy: Self)
        ensures
            copy@ == self@,
    {
        FunctionMetadata {
            name: self.name.clone(),
            args: copy_types(&self.args),
            output: self.output.clone(),
        }
    }
}

/// A function of the language with its compiled body.
#[derive(Debug, PartialEq)]
pub struct Function {
    pub meta: FunctionMetadata,
    pub chunk: Chunk,
}

/// A function of the host, known to the machine by the number under which the
/// host keeps it.
#[derive(Debug, PartialEq)]
pub struct NativeFunction {
    pub meta: FunctionMetadata,
    pub func: usize,
}

/// The description of a struct: its name and its named fields in the order of
/// their declaration.
#[derive(Debug, PartialEq, Eq)]
pub struct Struct {
    pub name: String,
    pub fields: Vec<(String, Type)>,
}

/// The description of a record: its name and the types of its fields.
#[derive(Debug, PartialEq, Eq)]
pub struct Record {
    pub name: String,
    pub fields: Vec<Type>,
}

#[derive(Debug, PartialEq)]
pub struct RecordInstance {
    pub name: String,
    pub fields: Vec<Value>,
}

#[derive(Debug, PartialEq)]
pub struct StructInstance {
    pub name: String,
    pub fields: Vec<(String, Value)>,
}

#[derive(Debug, PartialEq)]
pub enum Object {
    String(String),
    Function(Function),
    NativeFunction(NativeFunction),
    Struct(Struct),
    Record(Record),
    StructInstance(StructInstance),
    RecordInstance(RecordInstance),
}

/// An object as a mathematical value.
pub ghost enum ObjectView {
    String(Seq<char>),
    Function { meta: FunctionMetadataView, chunk: ChunkView },
    NativeFunction { meta: FunctionMetadataView, func: usize },
    Struct { name: Seq<char>, fields: Seq<(Seq<char>, TypeView)> },
    Record { name: Seq<char>, types: Seq<TypeView> },
    StructInstance { name: Seq<char>, named: Seq<(Seq<char>, Value)> },
    RecordInstance { name: Seq<char>, values: Seq<Value> },
}

/// The named values of a struct instance, names as sequences of characters.
pub open spec fn named_view(fields: Seq<(String, Value)>) -> Seq<(Seq<char>, Value)> {
    Seq::new(fields.len(), |i: int| (fields[i].0@, fields[i].1))
}

impl View for Object {
    type V = ObjectView;

    open spec fn view(&self) -> ObjectView {
        match self {
            Object::String(text) => ObjectView::String(text@),
            Object::Function(function) => ObjectView::Function {
                meta: function.meta@,
                chunk: function.chunk@,
            },
            Object::NativeFunction(function) => ObjectView::NativeFunction {
                meta: function.meta@,
                func: function.func,
            },
            Object::Struct(structure) => ObjectView::Struct {
                name: structure.name@,
                fields: fields_view(structure.fields@),
            },
            Object::Record(record) => ObjectView::Record {
                name: record.name@,
                types: types_view(record.fields@),
            },
            Object::StructInstance(instance) => ObjectView::StructInstance {
                name: instance.name@,
                named: named_view(instance.fields@),
            },
            Object::RecordInstance(instance) => ObjectView::RecordInstance {
                name: instance.name@,
                values: instance.fields@,
            },
        }
    }
}

impl ObjectView {
    /// The number of fields that an instance of this description has, if it is
    /// the description of a struct or a record.
    pub open spec fn arity(self) -> Option<nat> {
        match self {
            ObjectView::Struct { fields, .. } => Some(fields.len()),
            ObjectView::Record { types, .. } => Some(types.len()),
            _ => None,
        }
    }

    /// The values of the fields, if this is an instance.
    pub open spec fn field_values(self) -> Option<Seq<Value>> {
        match self {
            ObjectView::StructInstance { named, .. } => Some(
                Seq::new(named.len(), |i: int| named[i].1),
            ),
            ObjectView::RecordInstance { values, .. } => Some(values),
            _ => None,
        }
    }

    /// The instance with field `index` set to `value`.
    pub open spec fn with_field(self, index: int, value: Value) -> ObjectView {
        match self {
            ObjectView::StructInstance { name, named } => ObjectView::StructInstance {
                name,
                named: named.update(index, (named[index].0, value)),
            },
            ObjectView::RecordInstance { name, values } => ObjectView::RecordInstance {
                name,
                values: values.update(index, value),
            },
            other => other,
        }
    }

    /// The instance that a description makes of `values`, one for each field in
    /// the order of the declaration.
    pub open spec fn instantiate(self, values: Seq<Value>) -> ObjectView {
        match self {
            ObjectView::Struct { name, fields } => ObjectView::StructInstance {
                name,
                named: Seq::new(fields.len(), |i: int| (fields[i].0, values[i])),
            },
            ObjectView::Record { name, .. } => ObjectView::RecordInstance { name, values },
            other => other,
        }
    }
}

/// The objects that values refer to. An object keeps its place for as long as
/// the heap lives, and new ones are added at the end.
#[derive(Debug, PartialEq)]
pub struct Heap {
    pub objects: Vec<Object>,
}

impl View for Heap {
    type V = Seq<ObjectView>;

    open spec fn view(&self) -> Seq<ObjectView> {
        Seq::new(self.objects@.len(), |i: int| self.objects@[i]@)
    }
}

impl Heap {
    #[must_use]
    pub fn new() -> (heap: Self)
        ensures
            heap@ == Seq::<ObjectView>::empty(),
    {
        let heap = Heap { objects: Vec::new() };
        assert(heap@ =~= Seq::<ObjectView>::empty());
        heap
    }

    #[must_use]
    pub fn len(&self) -> (count: usize)
        ensures
            count == self@.len(),
    {
        self.objects.len()
    }

    /// Puts `object` on the heap and returns the handle that names it from
    /// now on.
    pub fn put(&mut self, object: Object) -> (handle: usize)
        ensures
            handle == old(self)@.len(),
            final(self)@ == old(self)@.push(object@),
    {
        let handle = self.objects.len();
        self.objects.push(object);
        assert(self@ =~= old(self)@.push(object@));
        handle
    }

    /// The object that `handle` names, if there is one.
    #[must_use]
    pub fn get(&self, handle: usize) -> (object: Option<&Object>)
        ensures
            handle < self@.len() ==> (object matches Some(found) && found@ == self@[handle as int]),
            handle >= self@.len() ==> object is None,
    {
        if handle < self.objects.len() {
            Some(&self.objects[handle])
        } else {
            None
        }
    }
}

impl Default for Heap {
    fn default() -> (heap: Self)
        ensures
            heap@ == Seq::<ObjectView>::empty(),
    {
        Self::new()
    }
}

impl Value {
    /// Puts `value` on the heap and returns the value that refers to it.
    #[must_use]
    pub fn object(heap: &mut Heap, value: Object) -> (handle: Self)
        ensures
            handle == Value::Object(old(heap)@.len() as usize),
            final(heap)@ == old(heap)@.push(value@),
    {
        Value::Object(heap.put(value))
    }

    /// The text of the string that a value refers to.
    pub open spec fn spec_as_string(self, heap: Seq<ObjectView>) -> Option<Seq<char>> {
        match self {
            Value::Object(handle) if handle < heap.len() => match heap[handle as int] {
                ObjectView::String(text) => Some(text),
                _ => None,
            },
            _ => None,
        }
    }

    #[must_use]
    pub fn as_string(&self, heap: &Heap) -> (text: Option<String>)
        ensures
            text is Some == self.spec_as_string(heap@) is Some,
            text matches Some(found) ==> Some(found@) == self.spec_as_string(heap@),
    {
        match self {
            Value::Object(handle) => match heap.get(*handle) {
                Some(Object::String(text)) => Some(text.clone()),
                _ => None,
            },
            _ => None,
        }
    }
}

impl From<i64> for Value {
    fn from(value: i64) -> (made: Self) {
        Value::Integer(value)
    }
}

impl vstd::std_specs::convert::FromSpecImpl<i64> for Value {
    open spec fn obeys_from_spec() -> bool {
        true
    }

    open spec fn from_spec(value: i64) -> Self {
        Value::Integer(value)
    }
}

impl From<bool> for Value {
    fn from(value: bool) -> (made: Self) {
        Value::Boolean(value)
    }
}

impl vstd::std_specs::convert::FromSpecImpl<bool> for Value {
    open spec fn obeys_from_spec() -> bool {
        true
    }

    open spec fn from_spec(value: bool) -> Self {
        Value::Boolean(value)
    }
}

impl From<Float> for Value {
    fn from(value: Float) -> (made: Self) {
        Value::Float(value)
    }
}

impl vstd::std_specs::convert::FromSpecImpl<Float> for Value {
    open spec fn obeys_from_spec() -> bool {
        true
    }

    open spec fn from_spec(value: Float) -> Self {
        Value::Float(value)
    }
}

impl From<()> for Value {
    fn from(value: ()) -> (made: Self) {
        Value::Nothing
    }
}

impl vstd::std_specs::convert::FromSpecImpl<()> for Value {
    open spec fn obeys_from_spec() -> bool {
        true
    }

    open spec fn from_spec(value: ()) -> Self {
        Value::Nothing
    }
}

/// The arguments of a call of a host function, handed out one by one.
#[derive(Debug)]
pub struct Args {
    pub args: Vec<Value>,
    pub taken: usize,
}

impl Args {
    pub fn new(args: Vec<Value>) -> (made: Self)
        ensures
            made.args@ == args@,
            made.taken == 0,
    {
        Args { args, taken: 0 }
    }

    /// The arguments not handed out yet.
    pub open spec fn remaining(&self) -> Seq<Value> {
        if self.taken <= self.args@.len() {
            self.args@.subrange(self.taken as int, self.args@.len() as int)
        } else {
            Seq::empty()
        }
    }

    /// The next argument.
    pub fn get(&mut self) -> (value: Value)
        requires
            old(self).remaining().len() > 0,
        ensures
            value == old(self).remaining()[0],
            final(self).remaining() == old(self).remaining().drop_first(),
    {
        let count = self.args.len();
        assert(self.taken < count) by {
            if self.taken >= self.args@.len() {
                assert(self.remaining().len() == 0);
            }
        }
        let value = self.args[self.taken];
        self.taken = self.taken + 1;
        assert(self.remaining() =~= old(self).remaining().drop_first());
        value
    }
}

} // verus!
