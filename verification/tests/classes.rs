use ion::class::{
    CallArgs, ClassDefinition, ClassInfo, ClassInitialiser, ClassRegistry, Context, Function,
    InitAnswer, InitRequest, InitState, JSClass, JSFunctionSpec, JSPropertySpec, NativeFunction,
    Object, ObjectRequest, ObjectState, Private,
};

struct Plain;

impl ClassInitialiser for Plain {
    fn class() -> JSClass {
        JSClass { id: 10 }
    }

    fn constructor() -> (NativeFunction, u32) {
        (NativeFunction { id: 11 }, 2)
    }
}

struct Child;

impl ClassInitialiser for Child {
    fn class() -> JSClass {
        JSClass { id: 20 }
    }

    fn parent_info(_cx: Context) -> Option<ClassInfo> {
        Some(info(70, 71))
    }

    fn constructor() -> (NativeFunction, u32) {
        (NativeFunction { id: 21 }, 0)
    }

    fn functions() -> Vec<JSFunctionSpec> {
        vec![JSFunctionSpec::Entry(1), JSFunctionSpec::Zero]
    }
}

const CX: Context = Context { id: 1 };

fn object(id: u64) -> Object {
    Object { id }
}

fn info(constructor: u64, prototype: u64) -> ClassInfo {
    ClassInfo { constructor: Function { object: object(constructor) }, prototype: object(prototype) }
}

fn check_plain(definition: &ClassDefinition) {
    assert_eq!(definition.class, JSClass { id: 10 });
    assert_eq!(definition.constructor, NativeFunction { id: 11 });
    assert_eq!(definition.nargs, 2);
    assert_eq!(definition.properties, vec![JSPropertySpec::Zero]);
    assert_eq!(definition.functions, vec![JSFunctionSpec::Zero]);
    assert_eq!(definition.static_properties, vec![JSPropertySpec::Zero]);
    assert_eq!(definition.static_functions, vec![JSFunctionSpec::Zero]);
}

#[test]
fn a_class_without_a_parent_inherits_from_a_new_object() {
    let mut registry = ClassRegistry::new();
    let (state, request) = Plain::init_class(CX, object(2));
    assert!(matches!(request, InitRequest::NewObject { cx: CX }));
    let (state, request) = state.advance(InitAnswer::Created(object(3)), 5, &mut registry);
    match request {
        InitRequest::InitClass { cx, object: global, parent_prototype, definition } => {
            assert_eq!(cx, CX);
            assert_eq!(global, object(2));
            assert_eq!(parent_prototype, object(3));
            check_plain(&definition);
        }
        other => panic!("{:?}", other),
    }
    let (state, request) = state.advance(InitAnswer::Initialised(object(4)), 5, &mut registry);
    match request {
        InitRequest::GetConstructor { cx, prototype } => {
            assert_eq!(cx, CX);
            assert_eq!(prototype, object(4));
        }
        other => panic!("{:?}", other),
    }
    assert_eq!(registry.get(5), None);
    let constructor = Function { object: object(6) };
    let (state, request) = state.advance(InitAnswer::Constructor(Some(constructor)), 5, &mut registry);
    assert!(matches!(request, InitRequest::Nothing));
    assert!(matches!(state, InitState::Done(made) if made == info(6, 4)));
    assert_eq!(registry.get(5), Some(info(6, 4)));
    assert_eq!(registry.get(6), None);
}

#[test]
fn a_class_with_a_parent_inherits_from_its_prototype() {
    let (state, request) = Child::init_class(CX, object(2));
    assert!(matches!(state, InitState::Prototype { cx: CX }));
    match request {
        InitRequest::InitClass { parent_prototype, definition, .. } => {
            assert_eq!(parent_prototype, object(71));
            assert_eq!(definition.functions, vec![JSFunctionSpec::Entry(1), JSFunctionSpec::Zero]);
            assert_eq!(definition.properties, vec![JSPropertySpec::Zero]);
        }
        other => panic!("{:?}", other),
    }
}

#[test]
fn the_defaults_are_empty() {
    assert_eq!(Plain::parent_info(CX), None);
    assert_eq!(Plain::functions(), vec![JSFunctionSpec::Zero]);
    assert_eq!(Plain::properties(), vec![JSPropertySpec::Zero]);
    assert_eq!(Plain::static_functions(), vec![JSFunctionSpec::Zero]);
    assert_eq!(Plain::static_properties(), vec![JSPropertySpec::Zero]);
}

#[test]
fn a_class_that_is_made_again_replaces_the_one_before() {
    let mut registry = ClassRegistry::new();
    registry.insert(1, info(10, 11));
    registry.insert(2, info(20, 21));
    registry.insert(1, info(30, 31));
    assert_eq!(registry.get(1), Some(info(30, 31)));
    assert_eq!(registry.get(2), Some(info(20, 21)));
}

#[test]
fn an_object_has_the_prototype_of_its_class_and_holds_its_native_value() {
    let mut registry = ClassRegistry::new();
    registry.insert(5, info(6, 4));
    let (state, request) = Plain::new_object(CX, Private { id: 99 }, 5, &registry);
    assert_eq!(
        request,
        ObjectRequest::NewObject { cx: CX, class: JSClass { id: 10 }, prototype: object(4) }
    );
    let (state, request) = state.advance(object(50));
    assert_eq!(state, ObjectState::Made(object(50)));
    assert_eq!(request, ObjectRequest::SetPrivate { object: object(50), native: Private { id: 99 } });
    let wanted = Plain::get_private(CX, object(50), Some(CallArgs { id: 8 }));
    assert_eq!(wanted.cx, CX);
    assert_eq!(wanted.object, object(50));
    assert_eq!(wanted.class, JSClass { id: 10 });
    assert_eq!(wanted.args, Some(CallArgs { id: 8 }));
    assert_eq!(Plain::get_private(CX, object(1), None).args, None);
}

#[test]
fn each_request_for_a_native_value_is_the_same() {
    let first = Plain::get_private(CX, object(50), None);
    let later = Plain::get_private(CX, object(50), None);
    assert_eq!(first, later);
    let other = Plain::get_private(CX, object(51), None);
    assert_eq!(other.class, first.class);
    assert_ne!(other.object, first.object);
}
