//! Classes of the engine: what is asked of the engine to make a class and its objects, and the
//! registry of the classes that have been made.
//!
//! The engine is reached step by step: each step names what to ask of the engine, and the next one
//! takes the answer. Its objects are known by numbers.
use std::collections::HashMap;
use vstd::prelude::*;

verus! {

broadcast use vstd::std_specs::hash::group_hash_axioms;

/// The context that a request belongs to.
#[derive(Clone, Copy, Debug, PartialEq, Eq, Structural)]
pub struct Context {
    pub id: u64,
}

/// An object of the engine.
#[derive(Clone, Copy, Debug, PartialEq, Eq, Structural)]
pub struct Object {
    pub id: u64,
}

/// A function of the engine.
#[derive(Clone, Copy, Debug, PartialEq, Eq, Structural)]
pub struct Function {
    pub object: Object,
}

/// A function that the engine can call.
#[derive(Clone, Copy, Debug, PartialEq, Eq, Structural)]
pub struct NativeFunction {
    pub id: u64,
}

/// The description of a class.
#[derive(Clone, Copy, Debug, PartialEq, Eq, Structural)]
pub struct JSClass {
    pub id: u64,
}

/// The arguments of a call.
#[derive(Clone, Copy, Debug, PartialEq, Eq, Structural)]
pub struct CallArgs {
    pub id: u64,
}

/// A native value that an object holds.
#[derive(Clone, Copy, Debug, PartialEq, Eq, Structural)]
pub struct Private {
    pub id: u64,
}

/// An entry in a list of functions. The zero entry ends the list.
#[derive(Clone, Copy, Debug, PartialEq, Eq, Structural)]
pub enum JSFunctionSpec {
    Zero,
    Entry(u64),
}

/// An entry in a list of properties. The zero entry ends the list.
#[derive(Clone, Copy, Debug, PartialEq, Eq, Structural)]
pub enum JSPropertySpec {
    Zero,
    Entry(u64),
}

/// A class that has been made: its constructor and its prototype.
#[derive(Clone, Copy, Debug, PartialEq, Eq, Structural)]
pub struct ClassInfo {
    pub constructor: Function,
    pub prototype: Object,
}

/// What a class is made from.
#[derive(Debug)]
pub struct ClassDefinition {
    pub class: JSClass,
    pub constructor: NativeFunction,
    pub nargs: u32,
    pub properties: Vec<JSPropertySpec>,
    pub functions: Vec<JSFunctionSpec>,
    pub static_properties: Vec<JSPropertySpec>,
    pub static_functions: Vec<JSFunctionSpec>,
}

/// The classes that have been made, by the numbers of the types that they belong to.
#[derive(Debug)]
pub struct ClassRegistry {
    infos: HashMap<u64, ClassInfo>,
}

impl View for ClassRegistry {
    type V = Map<u64, ClassInfo>;

    closed spec fn view(&self) -> Map<u64, ClassInfo> {
        self.infos@
    }
}

impl ClassRegistry {
    /// A registry without classes.
    pub fn new() -> (r: ClassRegistry)
        ensures
            r@ == Map::<u64, ClassInfo>::empty(),
    {
        ClassRegistry { infos: HashMap::new() }
    }

    /// Registers the class of a type, in the place of the one that was registered before.
    pub fn insert(&mut self, type_id: u64, info: ClassInfo)
        ensures
            final(self)@ == old(self)@.insert(type_id, info),
    {
        self.infos.insert(type_id, info);
    }

    /// The class of a type.
    pub fn get(&self, type_id: u64) -> (r: Option<ClassInfo>)
        ensures
            r == (if self@.contains_key(type_id) {
                Some(self@[type_id])
            } else {
                None
            }),
    {
        match self.infos.get(&type_id) {
            Some(info) => Some(*info),
            None => None,
        }
    }
}

/// What is asked of the engine while a class is made.
#[derive(Debug)]
pub enum InitRequest {
    /// A new plain object.
    NewObject { cx: Context },
    /// The class, as a property of `object`. The answer is its prototype.
    InitClass {
        cx: Context,
        object: Object,
        parent_prototype: Object,
        definition: ClassDefinition,
    },
    /// The constructor that belongs to a prototype, if it is a function.
    GetConstructor { cx: Context, prototype: Object },
    /// Nothing more: the class is made.
    Nothing,
}

/// What the engine answers while a class is made.
#[derive(Clone, Copy, Debug, PartialEq, Eq, Structural)]
pub enum InitAnswer {
    Created(Object),
    Initialised(Object),
    Constructor(Option<Function>),
}

/// How far a class is made.
#[derive(Debug)]
pub enum InitState {
    /// The object that is the prototype's prototype is awaited.
    Parent { cx: Context, object: Object, definition: ClassDefinition },
    /// The prototype is awaited.
    Prototype { cx: Context },
    /// The constructor is awaited.
    Constructor { prototype: Object },
    /// The class is made.
    Done(ClassInfo),
}

impl InitState {
    /// The state at the beginning, and the first request: a class without a parent gets a new
    /// object as its prototype's prototype.
    pub open spec fn first(
        cx: Context,
        object: Object,
        parent: Option<ClassInfo>,
        definition: ClassDefinition,
    ) -> (InitState, InitRequest) {
        match parent {
            Some(parent) => (
                InitState::Prototype { cx },
                InitRequest::InitClass {
                    cx,
                    object,
                    parent_prototype: parent.prototype,
                    definition,
                },
            ),
            None => (
                InitState::Parent { cx, object, definition },
                InitRequest::NewObject { cx },
            ),
        }
    }

    /// The state after an answer, and the next request. There is none for an answer that was not
    /// asked for, nor for a constructor that is no function.
    pub open spec fn next(self, answer: InitAnswer) -> Option<(InitState, InitRequest)> {
        match (self, answer) {
            (InitState::Parent { cx, object, definition }, InitAnswer::Created(parent)) => Some(
                (
                    InitState::Prototype { cx },
                    InitRequest::InitClass { cx, object, parent_prototype: parent, definition },
                ),
            ),
            (InitState::Prototype { cx }, InitAnswer::Initialised(prototype)) => Some(
                (
                    InitState::Constructor { prototype },
                    InitRequest::GetConstructor { cx, prototype },
                ),
            ),
            (
                InitState::Constructor { prototype },
                InitAnswer::Constructor(Some(constructor)),
            ) => Some(
                (InitState::Done(ClassInfo { constructor, prototype }), InitRequest::Nothing),
            ),
            _ => None,
        }
    }

    /// What the registry holds when the state is reached.
    pub open spec fn registered(self, type_id: u64, before: Map<u64, ClassInfo>) -> Map<
        u64,
        ClassInfo,
    > {
        match self {
            InitState::Done(info) => before.insert(type_id, info),
            _ => before,
        }
    }

    /// The state at the beginning, and the first request.
    pub fn begin(
        cx: Context,
        object: Object,
        parent: Option<ClassInfo>,
        definition: ClassDefinition,
    ) -> (r: (InitState, InitRequest))
        ensures
            r == InitState::first(cx, object, parent, definition),
    {
        match parent {
            Some(parent) => (
                InitState::Prototype { cx },
                InitRequest::InitClass {
                    cx,
                    object,
                    parent_prototype: parent.prototype,
                    definition,
                },
            ),
            None => (
                InitState::Parent { cx, object, definition },
                InitRequest::NewObject { cx },
            ),
        }
    }

    /// Takes an answer of the engine. The class is registered as the class of the type when it is
    /// made.
    pub fn advance(self, answer: InitAnswer, type_id: u64, registry: &mut ClassRegistry) -> (r: (
        InitState,
        InitRequest,
    ))
        requires
            self.next(answer) is Some,
        ensures
            Some(r) == self.next(answer),
            final(registry)@ == r.0.registered(type_id, old(registry)@),
    {
        match (self, answer) {
            (InitState::Parent { cx, object, definition }, InitAnswer::Created(parent)) => (
                InitState::Prototype { cx },
                InitRequest::InitClass { cx, object, parent_prototype: parent, definition },
            ),
            (InitState::Prototype { cx }, InitAnswer::Initialised(prototype)) => (
                InitState::Constructor { prototype },
                InitRequest::GetConstructor { cx, prototype },
            ),
            (
                InitState::Constructor { prototype },
                InitAnswer::Constructor(Some(constructor)),
            ) => {
                let info = ClassInfo { constructor, prototype };
                registry.insert(type_id, info);
                (InitState::Done(info), InitRequest::Nothing)
            },
            _ => vstd::pervasive::unreached(),
        }
    }
}

/// What is asked of the engine while an object is made.
#[derive(Clone, Copy, Debug, PartialEq, Eq, Structural)]
pub enum ObjectRequest {
    /// A new object of a class, with the given prototype.
    NewObject { cx: Context, class: JSClass, prototype: Object },
    /// That an object hold a native value.
    SetPrivate { object: Object, native: Private },
}

/// How far an object is made.
#[derive(Clone, Copy, Debug, PartialEq, Eq, Structural)]
pub enum ObjectState {
    /// The object is awaited; it is to hold the native value.
    Awaited { native: Private },
    /// The object is made.
    Made(Object),
}

impl ObjectState {
    /// The state at the beginning, and the first request: an object with the prototype of its
    /// class.
    pub open spec fn first(cx: Context, class: JSClass, info: ClassInfo, native: Private) -> (
        ObjectState,
        ObjectRequest,
    ) {
        (
            ObjectState::Awaited { native },
            ObjectRequest::NewObject { cx, class, prototype: info.prototype },
        )
    }

    /// The state when the engine has answered with the object, and the next request. There is none
    /// once the object is made.
    pub open spec fn next(self, object: Object) -> Option<(ObjectState, ObjectRequest)> {
        match self {
            ObjectState::Awaited { native } => Some(
                (ObjectState::Made(object), ObjectRequest::SetPrivate { object, native }),
            ),
            ObjectState::Made(_) => None,
        }
    }

    /// The state at the beginning, and the first request.
    pub fn begin(cx: Context, class: JSClass, info: ClassInfo, native: Private) -> (r: (
        ObjectState,
        ObjectRequest,
    ))
        ensures
            r == ObjectState::first(cx, class, info, native),
    {
        (
            ObjectState::Awaited { native },
            ObjectRequest::NewObject { cx, class, prototype: info.prototype },
        )
    }

    /// Takes the object that the engine has made.
    pub fn advance(self, object: Object) -> (r: (ObjectState, ObjectRequest))
        requires
            self is Awaited,
        ensures
            Some(r) == self.next(object),
    {
        match self {
            ObjectState::Awaited { native } => (
                ObjectState::Made(object),
                ObjectRequest::SetPrivate { object, native },
            ),
            ObjectState::Made(_) => vstd::pervasive::unreached(),
        }
    }
}

/// What is asked of the engine to get the native value that an object holds: the object has to be
/// of the class. Where the arguments of a call are given, the engine reports there that it is not.
#[derive(Clone, Copy, Debug, PartialEq, Eq, Structural)]
pub struct PrivateRequest {
    pub cx: Context,
    pub object: Object,
    pub class: JSClass,
    pub args: Option<CallArgs>,
}

/// A native type that is a class of the engine.
pub trait ClassInitialiser: Sized {
    /// The description of the class.
    fn class() -> JSClass;

    /// The class that this one inherits from.
    fn parent_info(_cx: Context) -> (r: Option<ClassInfo>)
        default_ensures
            r is None,
    {
        None
    }

    /// The function that makes an object, and the number of its arguments.
    fn constructor() -> (NativeFunction, u32);

    /// The functions of an object.
    fn functions() -> (r: Vec<JSFunctionSpec>)
        default_ensures
            r@ == seq![JSFunctionSpec::Zero],
    {
        vec![JSFunctionSpec::Zero]
    }

    /// The properties of an object.
    fn properties() -> (r: Vec<JSPropertySpec>)
        default_ensures
            r@ == seq![JSPropertySpec::Zero],
    {
        vec![JSPropertySpec::Zero]
    }

    /// The functions of the constructor.
    fn static_functions() -> (r: Vec<JSFunctionSpec>)
        default_ensures
            r@ == seq![JSFunctionSpec::Zero],
    {
        vec![JSFunctionSpec::Zero]
    }

    /// The properties of the constructor.
    fn static_properties() -> (r: Vec<JSPropertySpec>)
        default_ensures
            r@ == seq![JSPropertySpec::Zero],
    {
        vec![JSPropertySpec::Zero]
    }

    /// Begins to make the class, as a property of `object`.
    fn init_class(cx: Context, object: Object) -> (r: (InitState, InitRequest))
        ensures
            exists|parent: Option<ClassInfo>, definition: ClassDefinition|
                #![trigger InitState::first(cx, object, parent, definition)]
                {
                    &&& r == InitState::first(cx, object, parent, definition)
                    &&& call_ensures(Self::parent_info, (cx,), parent)
                    &&& call_ensures(Self::class, (), definition.class)
                    &&& call_ensures(
                        Self::constructor,
                        (),
                        (definition.constructor, definition.nargs),
                    )
                    &&& call_ensures(Self::properties, (), definition.properties)
                    &&& call_ensures(Self::functions, (), definition.functions)
                    &&& call_ensures(Self::static_properties, (), definition.static_properties)
                    &&& call_ensures(Self::static_functions, (), definition.static_functions)
                },
    {
        let class = Self::class();
        let parent = Self::parent_info(cx);
        let (constructor, nargs) = Self::constructor();
        let properties = Self::properties();
        let functions = Self::functions();
        let static_properties = Self::static_properties();
        let static_functions = Self::static_functions();
        let definition = ClassDefinition {
            class,
            constructor,
            nargs,
            properties,
            functions,
            static_properties,
            static_functions,
        };
        InitState::begin(cx, object, parent, definition)
    }

    /// Begins to make an object that holds a native value. The class of the type has to be
    /// registered.
    fn new_object(cx: Context, native: Private, type_id: u64, registry: &ClassRegistry) -> (r: (
        ObjectState,
        ObjectRequest,
    ))
        requires
            registry@.contains_key(type_id),
        ensures
            exists|class: JSClass|
                #![trigger ObjectState::first(cx, class, registry@[type_id], native)]
                call_ensures(Self::class, (), class) && r == ObjectState::first(
                    cx,
                    class,
                    registry@[type_id],
                    native,
                ),
    {
        match registry.get(type_id) {
            Some(info) => ObjectState::begin(cx, Self::class(), info, native),
            None => vstd::pervasive::unreached(),
        }
    }

    /// Asks for the native value that an object of the class holds.
    fn get_private(cx: Context, object: Object, args: Option<CallArgs>) -> (r: PrivateRequest)
        ensures
            r.cx == cx,
            r.object == object,
            r.args == args,
            call_ensures(Self::class, (), r.class),
    {
        PrivateRequest { cx, object, class: Self::class(), args }
    }
}

/// What the engine keeps of objects, their classes and where their native values are, and the
/// native values themselves.
#[verifier::reject_recursive_types(T)]
pub struct Heap<T> {
    pub classes: Map<Object, JSClass>,
    pub privates: Map<Object, Private>,
    pub natives: Map<Private, T>,
}

impl<T> Heap<T> {
    /// No object holds the native value at the given place.
    pub open spec fn is_free(self, native: Private) -> bool {
        forall|o: Object| #[trigger] self.privates.contains_key(o) ==> self.privates[o] != native
    }

    /// The heap when a native value has been put at a place.
    pub open spec fn put(self, native: Private, value: T) -> Heap<T> {
        Heap {
            classes: self.classes,
            privates: self.privates,
            natives: self.natives.insert(native, value),
        }
    }

    /// The heap when a request has been carried out with `object`.
    pub open spec fn after(self, request: ObjectRequest, object: Object) -> Heap<T> {
        match request {
            ObjectRequest::NewObject { class, .. } => Heap {
                classes: self.classes.insert(object, class),
                privates: self.privates.remove(object),
                natives: self.natives,
            },
            ObjectRequest::SetPrivate { object, native } => Heap {
                classes: self.classes,
                privates: self.privates.insert(object, native),
                natives: self.natives,
            },
        }
    }

    /// What the engine answers to a request for a native value: where it is.
    pub open spec fn answer(self, request: PrivateRequest) -> Option<Private> {
        if self.classes.contains_key(request.object) && self.classes[request.object]
            == request.class && self.privates.contains_key(request.object) {
            Some(self.privates[request.object])
        } else {
            None
        }
    }

    /// What is read where the engine answers that the native value is.
    pub open spec fn read(self, request: PrivateRequest) -> Option<T> {
        match self.answer(request) {
            Some(native) => if self.natives.contains_key(native) {
                Some(self.natives[native])
            } else {
                None
            },
            None => None,
        }
    }

    /// The heap when a value has been written where the engine answers that the native value is.
    pub open spec fn write(self, request: PrivateRequest, value: T) -> Heap<T> {
        match self.answer(request) {
            Some(native) => self.put(native, value),
            None => self,
        }
    }

    /// The heap when an object of a class has been made, with a native value at a place.
    pub open spec fn with_object(
        self,
        cx: Context,
        class: JSClass,
        info: ClassInfo,
        native: Private,
        value: T,
        object: Object,
    ) -> Heap<T> {
        let (awaited, creation) = ObjectState::first(cx, class, info, native);
        let (_, storage) = awaited.next(object).unwrap();
        self.put(native, value).after(creation, object).after(storage, object)
    }
}

/// The type describes its class in the same way each time.
pub open spec fn is_steady<C: ClassInitialiser>() -> bool {
    forall|a: JSClass, b: JSClass| #[trigger]
        call_ensures(C::class, (), a) && #[trigger] call_ensures(C::class, (), b) ==> a == b
}

/// A class that is made has as its prototype and its constructor what the engine answered, and
/// inherits from the prototype of its parent or, without a parent, from the object that was
/// created for it.
pub proof fn law_init_class(
    cx: Context,
    object: Object,
    parent: Option<ClassInfo>,
    definition: ClassDefinition,
    created: Object,
    prototype: Object,
    constructor: Function,
)
    ensures
        ({
            let (state, request) = InitState::first(cx, object, parent, definition);
            let (state, request) = match parent {
                Some(_) => (state, request),
                None => state.next(InitAnswer::Created(created)).unwrap(),
            };
            let found = state.next(InitAnswer::Initialised(prototype)).unwrap();
            let done = found.0.next(InitAnswer::Constructor(Some(constructor))).unwrap();
            &&& request == (InitRequest::InitClass {
                cx,
                object,
                parent_prototype: match parent {
                    Some(parent) => parent.prototype,
                    None => created,
                },
                definition,
            })
            &&& found.1 == (InitRequest::GetConstructor { cx, prototype })
            &&& done.0 == InitState::Done(ClassInfo { constructor, prototype })
            &&& done.1 is Nothing
        }),
{
}

/// Until a class is made, the registry is not changed; when it is made, its type has it in the
/// registry and every other type has what it had.
pub proof fn law_registered(state: InitState, type_id: u64, other: u64, before: Map<u64, ClassInfo>)
    ensures
        !(state is Done) ==> state.registered(type_id, before) == before,
        state matches InitState::Done(info) ==> {
            let after = state.registered(type_id, before);
            &&& after.contains_key(type_id) && after[type_id] == info
            &&& other != type_id ==> (after.contains_key(other) <==> before.contains_key(other))
            &&& other != type_id && before.contains_key(other) ==> after[other] == before[other]
        },
{
}

/// An object that is made after its class has the prototype that the engine gave the class.
pub proof fn law_object_of_class(
    cx: Context,
    class: JSClass,
    info: ClassInfo,
    type_id: u64,
    before: Map<u64, ClassInfo>,
    native: Private,
)
    ensures
        ({
            let registry = InitState::Done(info).registered(type_id, before);
            ObjectState::first(cx, class, registry[type_id], native).1
                == ObjectRequest::NewObject { cx, class, prototype: info.prototype }
        }),
{
}

/// What is asked for of an object is the native value that it was made with. What is written there
/// is what a later request reads, for it is answered with the same place. Objects that were made
/// before are not affected, neither by making the object nor by writing.
pub proof fn law_private_round_trip<C: ClassInitialiser, T>(
    heap: Heap<T>,
    cx: Context,
    class: JSClass,
    info: ClassInfo,
    native: Private,
    value: T,
    object: Object,
    first: PrivateRequest,
    later: PrivateRequest,
    other: PrivateRequest,
    written: T,
)
    requires
        is_steady::<C>(),
        heap.is_free(native),
        call_ensures(C::class, (), class),
        call_ensures(C::class, (), first.class),
        call_ensures(C::class, (), later.class),
        first.object == object,
        later.object == object,
        other.object != object,
    ensures
        ({
            let made = heap.with_object(cx, class, info, native, value, object);
            let changed = made.write(first, written);
            &&& made.answer(first) == Some(native)
            &&& made.answer(later) == made.answer(first)
            &&& made.read(first) == Some(value)
            &&& made.read(later) == Some(value)
            &&& changed.answer(later) == Some(native)
            &&& changed.read(later) == Some(written)
            &&& made.answer(other) == heap.answer(other)
            &&& made.read(other) == heap.read(other)
            &&& changed.answer(other) == heap.answer(other)
            &&& changed.read(other) == heap.read(other)
        }),
{
    assert(first.class == class && later.class == class);
}

/// Making another object, of any class, with its native value elsewhere, or writing to that value,
/// does not affect what is read of an object.
pub proof fn law_objects_apart<C: ClassInitialiser, T>(
    heap: Heap<T>,
    cx: Context,
    class: JSClass,
    info: ClassInfo,
    native: Private,
    value: T,
    object: Object,
    other_cx: Context,
    other_class: JSClass,
    other_info: ClassInfo,
    other_native: Private,
    other_value: T,
    other_object: Object,
    request: PrivateRequest,
    other: PrivateRequest,
    written: T,
)
    requires
        is_steady::<C>(),
        native != other_native,
        object != other_object,
        call_ensures(C::class, (), class),
        call_ensures(C::class, (), request.class),
        request.object == object,
        other.object == other_object,
    ensures
        ({
            let made = heap.with_object(cx, class, info, native, value, object).with_object(
                other_cx,
                other_class,
                other_info,
                other_native,
                other_value,
                other_object,
            );
            &&& made.read(request) == Some(value)
            &&& made.write(other, written).read(request) == Some(value)
        }),
{
    assert(request.class == class);
}

/// An answer that was not asked for, and a constructor that is no function, lead nowhere; nor does
/// anything once the class or the object is made.
pub proof fn law_unasked(state: InitState, answer: InitAnswer, object: Object, made: Object)
    ensures
        state.next(answer) is Some <==> match state {
            InitState::Parent { .. } => answer is Created,
            InitState::Prototype { .. } => answer is Initialised,
            InitState::Constructor { .. } => answer matches InitAnswer::Constructor(Some(_)),
            InitState::Done(_) => false,
        },
        ObjectState::Made(made).next(object) is None,
{
}

/// An object is made in two steps: it is asked for, with the description of its class and the
/// prototype that is registered for it, and then it is told to hold the native value.
pub proof fn law_object_steps(
    cx: Context,
    class: JSClass,
    info: ClassInfo,
    native: Private,
    object: Object,
)
    ensures
        ({
            let (awaited, creation) = ObjectState::first(cx, class, info, native);
            &&& creation == (ObjectRequest::NewObject { cx, class, prototype: info.prototype })
            &&& awaited.next(object) == Some(
                (ObjectState::Made(object), ObjectRequest::SetPrivate { object, native }),
            )
        }),
{
}

/// The definition of a class holds what its type gives for each part, and not for another.
pub open spec fn is_given_by<C: ClassInitialiser>(definition: ClassDefinition) -> bool {
    &&& call_ensures(C::class, (), definition.class)
    &&& call_ensures(C::constructor, (), (definition.constructor, definition.nargs))
    &&& call_ensures(C::properties, (), definition.properties)
    &&& call_ensures(C::functions, (), definition.functions)
    &&& call_ensures(C::static_properties, (), definition.static_properties)
    &&& call_ensures(C::static_functions, (), definition.static_functions)
}

/// A type begins to make its class by asking for it, as a property of the given object and with the
/// prototype of its parent, or, where it has no parent, for an object to be that prototype. Either
/// way what the type gives is asked for in the end.
pub proof fn law_init_class_begins<C: ClassInitialiser>(
    cx: Context,
    object: Object,
    state: InitState,
    request: InitRequest,
    created: Object,
)
    requires
        call_ensures(C::init_class, (cx, object), (state, request)),
    ensures
        match request {
            InitRequest::NewObject { cx: asked } => {
                &&& asked == cx
                &&& call_ensures(C::parent_info, (cx,), None)
                &&& state.next(InitAnswer::Created(created)) matches Some((_, next))
                    && next matches InitRequest::InitClass {
                    cx: asked,
                    object: on,
                    parent_prototype,
                    definition,
                } && asked == cx && on == object && parent_prototype == created && is_given_by::<C>(
                    definition,
                )
            },
            InitRequest::InitClass { cx: asked, object: on, parent_prototype, definition } => {
                &&& asked == cx
                &&& on == object
                &&& is_given_by::<C>(definition)
                &&& exists|parent: ClassInfo|
                    #[trigger] call_ensures(C::parent_info, (cx,), Some(parent))
                        && parent.prototype == parent_prototype
            },
            _ => false,
        },
{
}

/// A type begins to make an object by asking for one of its class, with the prototype that is
/// registered for it, and has it hold the native value that was given.
pub proof fn law_new_object_begins<C: ClassInitialiser>(
    cx: Context,
    native: Private,
    type_id: u64,
    registry: &ClassRegistry,
    state: ObjectState,
    request: ObjectRequest,
    object: Object,
)
    requires
        registry@.contains_key(type_id),
        call_ensures(C::new_object, (cx, native, type_id, registry), (state, request)),
    ensures
        request matches ObjectRequest::NewObject { cx: asked, class, prototype } && asked == cx
            && call_ensures(C::class, (), class) && prototype == registry@[type_id].prototype,
        state.next(object) == Some(
            (ObjectState::Made(object), ObjectRequest::SetPrivate { object, native }),
        ),
{
}

/// A type asks for the native value of the object that was given, as one of its class, and hands the
/// arguments on.
pub proof fn law_get_private_asks<C: ClassInitialiser>(
    cx: Context,
    object: Object,
    args: Option<CallArgs>,
    request: PrivateRequest,
)
    requires
        call_ensures(C::get_private, (cx, object, args), request),
    ensures
        request.cx == cx,
        request.object == object,
        request.args == args,
        call_ensures(C::class, (), request.class),
{
}

} // verus!
