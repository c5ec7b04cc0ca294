use parsefront::ast::{FunctionSignature, Type};

#[test]
fn ty_names() {
    let cases: Vec<(Type, &str)> = vec![
        (Type::Unit, "unit"),
        (Type::I64, "i64"),
        (Type::I32, "i32"),
        (Type::I8, "i8"),
        (Type::U64, "u64"),
        (Type::U32, "u32"),
        (Type::U8, "u8"),
        (Type::F32, "f32"),
        (Type::F64, "f64"),
        (Type::Unit.as_pointer(), "*unit"),
        (Type::U32.as_pointer().as_pointer(), "**u32"),
        (Type::F32.as_array(10), "[f32; 10]"),
        (Type::custom("BruhMoment"), "BruhMoment"),
        (Type::template("BruhMoment", vec![Type::I64]), "BruhMoment<i64>"),
        (
            Type::template("BruhMoment", vec![Type::I64, Type::F32.as_pointer()]),
            "BruhMoment<i64, *f32>",
        ),
        (Type::U8.as_const(), "const u8"),
        (Type::U8.as_const().as_pointer(), "*const u8"),
        (
            FunctionSignature::new(vec![Type::F32], Type::Unit).as_type(),
            "function (f32) => unit",
        ),
        (
            FunctionSignature::new(vec![Type::F32, Type::U8], Type::Unit).as_type(),
            "function (f32, u8) => unit",
        ),
        (
            FunctionSignature::new(vec![Type::F32], Type::Unit).as_type().as_pointer().as_const(),
            "const *function (f32) => unit",
        ),
    ];
    for (ty, expected) in cases {
        assert_eq!(ty.name(), expected.to_string());
        drop(ty);
    }
}

#[test]
fn as_const_is_idempotent() {
    let samples: Vec<Type> = vec![
        Type::I32,
        Type::I32.as_pointer(),
        Type::F32.as_array(4),
        Type::custom("Thing"),
    ];
    for ty in samples {
        let once = ty.as_const();
        let twice = once.as_const();
        assert_eq!(once, twice);
        assert_eq!(once.as_const().as_const(), once);
    }
}

#[test]
fn size_of_follows_the_layout_rules() {
    assert_eq!(Type::Unit.size_of(), Some(0));
    assert_eq!(Type::I64.size_of(), Some(8));
    assert_eq!(Type::U64.size_of(), Some(8));
    assert_eq!(Type::F64.size_of(), Some(8));
    assert_eq!(Type::I32.size_of(), Some(4));
    assert_eq!(Type::U8.size_of(), Some(1));
    assert_eq!(Type::USize.size_of(), Some(core::mem::size_of::<usize>()));
    assert_eq!(Type::I32.as_pointer().size_of(), Some(core::mem::size_of::<usize>()));
    assert_eq!(Type::I32.as_const().size_of(), Some(4));
    assert_eq!(Type::I32.as_array(5).size_of(), Some(20));
    assert_eq!(Type::custom("Thing").size_of(), None);
    assert_eq!(Type::custom("Thing").as_array(4).size_of(), None);
}

#[test]
fn variable_accessors() {
    let v = parsefront::ast::Variable::new("speed", Type::F32);
    assert_eq!(v.get_name().0, "speed");
    assert_eq!(v.get_type(), &Type::F32);
}
