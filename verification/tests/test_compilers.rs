use valve_compilers::{
    Arg, ArgDef, ArgValue, Compiler, CompilerArg, CompilerEnum, CompilerMetadata, Decimal, Tool,
    ValueType,
};

fn row(name: &'static str, token: &'static str, value_type: ValueType) -> ArgDef {
    ArgDef {
        name,
        token,
        description: "",
        value_type,
        default_value: None,
        is_default: false,
        compatible_games: None,
    }
}

fn no_detail() -> ArgDef {
    row("NoDetail", "-nodetail", ValueType::Flag)
}

fn verbose() -> ArgDef {
    row("Verbose", "-verbose", ValueType::Flag)
}

fn min_instances() -> ArgDef {
    ArgDef {
        default_value: Some("3"),
        ..row("StaticPropCombineMinInstances", "-staticpropcombine_mininstances", ValueType::Integer)
    }
}

fn allow_dynamic_props_as_static() -> ArgDef {
    ArgDef {
        compatible_games: Some(&[4000]),
        ..row("AllowDynamicPropsAsStatic", "-allowdynamicpropsasstatic", ValueType::Flag)
    }
}

fn vbsp_catalog() -> Vec<ArgDef> {
    vec![
        ArgDef {
            default_value: Some("$gameDir"),
            is_default: true,
            ..row("GameDirectory", "-game", ValueType::Path)
        },
        ArgDef {
            default_value: Some("$mapPath"),
            is_default: true,
            ..row("MapFile", "", ValueType::Path)
        },
        verbose(),
        row("OnlyEntities", "-onlyents", ValueType::Flag),
        no_detail(),
        row("NoWater", "-nowater", ValueType::Flag),
        ArgDef { default_value: Some("1.0"), ..row("MicroVolumeTest", "-micro", ValueType::Float) },
        min_instances(),
        allow_dynamic_props_as_static(),
    ]
}

fn vbsp_metadata() -> CompilerMetadata {
    CompilerMetadata {
        name: "VBSP",
        description: "BSP Compiler for Source Engine",
        working_dir_template: "$binDir",
    }
}

fn vrad_metadata() -> CompilerMetadata {
    CompilerMetadata {
        name: "VRAD",
        description: "Lighting Compiler for Source Engine",
        working_dir_template: "$binDir",
    }
}

fn vbsp_default() -> Tool {
    Tool::with_defaults(vbsp_metadata(), &vbsp_catalog())
}

fn flag(def: ArgDef) -> Arg {
    Arg::new(def, ArgValue::Flag).unwrap()
}

/// An argument of the row with some value of the row's kind.
fn any_entry(def: ArgDef) -> Arg {
    let value = match def.value_type {
        ValueType::Flag => ArgValue::Flag,
        ValueType::Float => ArgValue::Float(Decimal::parse("0").unwrap()),
        ValueType::Integer => ArgValue::Integer(0),
        ValueType::String => ArgValue::String(String::new()),
        ValueType::Path => ArgValue::Path(String::new()),
    };
    Arg::new(def, value).unwrap()
}

/// The static metadata of a compiler.
#[test]
fn test_vbsp_metadata() {
    let compiler = vbsp_default();

    assert_eq!(compiler.name(), "VBSP");
    assert_eq!(compiler.description(), "BSP Compiler for Source Engine");
    assert_eq!(compiler.working_dir_template(), "$binDir");

    let metadata = compiler.get_metadata();
    assert_eq!(metadata.name, "VBSP");
}

/// Construction with defaults populates the base arguments.
#[test]
fn test_vbsp_default_arguments() {
    let compiler = vbsp_default();
    let default_args = compiler.get_args();

    assert_eq!(default_args.len(), 2);
    assert!(default_args[0].name() == "GameDirectory" && matches!(default_args[0].value(), ArgValue::Path(_)));
    assert!(default_args[1].name() == "MapFile" && matches!(default_args[1].value(), ArgValue::Path(_)));
}

/// The build_args() logic for a compiler instance.
#[test]
fn test_vbsp_build_args() {
    let mut compiler = Tool::new(vbsp_metadata());

    assert!(compiler.build_args().is_empty());

    compiler.add_arg(flag(no_detail()));
    compiler.add_arg(Arg::new(min_instances(), ArgValue::Integer(5)).unwrap());
    compiler.add_arg(flag(verbose()));

    let expected: Vec<String> = vec![
        "-nodetail",
        "-staticpropcombine_mininstances",
        "5",
        "-verbose",
    ]
    .into_iter()
    .map(String::from)
    .collect();
    let built_args = compiler.build_args();
    assert_eq!(built_args, expected);

    compiler.clear_args();
    assert!(compiler.build_args().is_empty());
}

/// The top-level CompilerEnum delegates calls.
#[test]
fn test_compiler_enum_delegation() {
    let enum_compiler = CompilerEnum::Vbsp(vbsp_default());
    assert_eq!(enum_compiler.name(), "VBSP");
    assert_eq!(enum_compiler.description(), "BSP Compiler for Source Engine");

    let mut vrad_instance = Tool::new(vrad_metadata());
    vrad_instance.add_arg(flag(row("Fast", "-fast", ValueType::Flag)));
    let vrad_enum = CompilerEnum::Vrad(vrad_instance);

    let expected: Vec<String> = vec!["-fast".to_string()];
    assert_eq!(vrad_enum.build_args(), expected);
}

/// Game compatibility.
#[test]
fn test_csgo_compatibility() {
    let current_game_id = 730; // CS:GO

    for def in vbsp_catalog() {
        if def.name == allow_dynamic_props_as_static().name {
            continue; // only in GMod
        }
        let arg_variant = any_entry(def);
        assert!(
            arg_variant.is_compatible_with_game(current_game_id),
            "'{}' should be compatible with CS:GO!",
            arg_variant.name()
        );
    }
}
