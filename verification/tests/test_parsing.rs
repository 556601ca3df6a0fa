use valve_compilers::{Arg, ArgDef, ArgValue, CompilerArg, ParseArgError, ValueType};

fn row(name: &'static str, token: &'static str, value_type: ValueType) -> ArgDef {
    ArgDef {
        name,
        token,
        description: "",
        value_type,
        default_value: None,
        is_default: false,
        compatible_games: None,
    }
}

fn vbsp_catalog() -> Vec<ArgDef> {
    vec![
        row("GameDirectory", "-game", ValueType::Path),
        row("MapFile", "", ValueType::Path),
        row("Verbose", "-verbose", ValueType::Flag),
        row("OnlyEntities", "-onlyents", ValueType::Flag),
        row("NoDetail", "-nodetail", ValueType::Flag),
        row("MicroVolumeTest", "-micro", ValueType::Float),
        row("StaticPropCombineMinInstances", "-staticpropcombine_mininstances", ValueType::Integer),
    ]
}

fn bspzip_catalog() -> Vec<ArgDef> {
    vec![row("PackFileList", "-addlist", ValueType::Path)]
}

/// Successful parsing of all argument types.
#[test]
fn test_parsing_success_cases() {
    // Flag
    let arg_flag = Arg::parse(&vbsp_catalog(), "-onlyents").unwrap();
    assert!(arg_flag.name() == "OnlyEntities" && matches!(arg_flag.value(), ArgValue::Flag));
    // Float
    let arg_float = Arg::parse(&vbsp_catalog(), "-micro 0.5").unwrap();
    assert_eq!(arg_float.name(), "MicroVolumeTest");
    assert!(matches!(arg_float.value(), ArgValue::Float(v) if (v.to_text().parse::<f32>().unwrap() - 0.5).abs() < f32::EPSILON));
    // Integer
    let arg_int = Arg::parse(&vbsp_catalog(), "-staticpropcombine_mininstances 42").unwrap();
    assert_eq!(arg_int.name(), "StaticPropCombineMinInstances");
    assert!(matches!(arg_int.value(), ArgValue::Integer(42)));
    // Path (from a different compiler for variety)
    let bspzip_arg = Arg::parse(&bspzip_catalog(), "-addlist /my/path/list.txt").unwrap();
    assert_eq!(bspzip_arg.name(), "PackFileList");
    assert!(matches!(bspzip_arg.value(), ArgValue::Path(p) if p == "/my/path/list.txt"));
}

/// All defined parsing error conditions.
#[test]
fn test_parsing_error_cases() {
    // Error: Unknown argument
    let err1 = Arg::parse(&vbsp_catalog(), "-nonexistent_arg").unwrap_err();
    assert_eq!(err1, ParseArgError::UnknownArgument("-nonexistent_arg".to_string()));

    // Error: Missing value for an argument that requires one
    let err2 = Arg::parse(&vbsp_catalog(), "-micro").unwrap_err();
    assert_eq!(err2, ParseArgError::MissingValue("-micro"));

    // Error: Invalid value type (e.g., text for a number)
    let err3 = Arg::parse(&vbsp_catalog(), "-micro not_a_float").unwrap_err();
    assert_eq!(err3, ParseArgError::InvalidValue { argument: "-micro", value: "not_a_float".to_string() });

    // Error: Extraneous value provided for a flag
    let err4 = Arg::parse(&vbsp_catalog(), "-verbose some_value").unwrap_err();
    assert_eq!(err4, ParseArgError::UnexpectedValue("-verbose"));
}

/// Parsing from an owned String.
#[test]
fn test_parsing_from_owned_string() {
    let owned_string = String::from("-nodetail");
    let arg = Arg::parse_string(&vbsp_catalog(), owned_string).unwrap();
    assert!(arg.name() == "NoDetail" && matches!(arg.value(), ArgValue::Flag));
}
