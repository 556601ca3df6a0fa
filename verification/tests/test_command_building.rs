use std::path::PathBuf;
use valve_compilers::{Arg, ArgDef, ArgValue, Compiler, CompilerContext, CompilerMetadata, Decimal, Tool, ValueType};

fn row(name: &'static str, token: &'static str, value_type: ValueType) -> ArgDef {
    ArgDef {
        name,
        token,
        description: "",
        value_type,
        default_value: None,
        is_default: false,
        compatible_games: None,
    }
}

fn game_directory() -> ArgDef {
    ArgDef {
        description: "The game directory",
        default_value: Some("$gameDir"),
        is_default: true,
        ..row("GameDirectory", "-game", ValueType::Path)
    }
}

fn map_file() -> ArgDef {
    ArgDef {
        description: "The map to compile",
        default_value: Some("$mapPath"),
        is_default: true,
        ..row("MapFile", "", ValueType::Path)
    }
}

fn verbose() -> ArgDef {
    row("Verbose", "-verbose", ValueType::Flag)
}

fn only_entities() -> ArgDef {
    row("OnlyEntities", "-onlyents", ValueType::Flag)
}

fn no_water() -> ArgDef {
    row("NoWater", "-nowater", ValueType::Flag)
}

fn micro_volume_test() -> ArgDef {
    ArgDef { default_value: Some("1.0"), ..row("MicroVolumeTest", "-micro", ValueType::Float) }
}

fn min_instances() -> ArgDef {
    ArgDef {
        default_value: Some("3"),
        ..row("StaticPropCombineMinInstances", "-staticpropcombine_mininstances", ValueType::Integer)
    }
}

fn vbsp_catalog() -> Vec<ArgDef> {
    vec![
        game_directory(),
        map_file(),
        verbose(),
        only_entities(),
        no_water(),
        micro_volume_test(),
        min_instances(),
    ]
}

fn vbsp_metadata() -> CompilerMetadata {
    CompilerMetadata {
        name: "VBSP",
        description: "BSP Compiler for Source Engine",
        working_dir_template: "$binDir",
    }
}

/// The tool without arguments.
fn vbsp_new() -> Tool {
    Tool::new(vbsp_metadata())
}

/// The tool with its base arguments.
fn vbsp_default() -> Tool {
    Tool::with_defaults(vbsp_metadata(), &vbsp_catalog())
}

fn path(def: ArgDef, value: &str) -> Arg {
    Arg::new(def, ArgValue::Path(String::from(value))).unwrap()
}

fn flag(def: ArgDef) -> Arg {
    Arg::new(def, ArgValue::Flag).unwrap()
}

/// A float argument; the number is handed over as Rust prints it.
fn float(def: ArgDef, value: f32) -> Arg {
    Arg::new(def, ArgValue::Float(Decimal::parse(&format!("{}", value)).unwrap())).unwrap()
}

fn integer(def: ArgDef, value: i32) -> Arg {
    Arg::new(def, ArgValue::Integer(value)).unwrap()
}

fn text_of_path(path: PathBuf) -> String {
    path.to_string_lossy().into_owned()
}

/// Variable substitution works for arguments and working directory, with
/// arguments of every kind.
#[test]
fn test_contextual_command_building() {
    // 1. Create a compiler instance and add various arguments.
    let mut compiler = vbsp_new();
    compiler.add_arg(path(game_directory(), r"C:\CustomGame\game"));
    compiler.add_arg(path(map_file(), r"C:\maps\my_map_final.vmf"));
    compiler.add_arg(flag(verbose()));
    compiler.add_arg(flag(only_entities()));
    compiler.add_arg(float(micro_volume_test(), 0.5));
    compiler.add_arg(integer(min_instances(), 10));

    // 2. Define the runtime context.
    let context = CompilerContext {
        bin_dir: String::from(r"C:\Steam\steamapps\common\Counter-Strike Global Offensive\bin"),
        game_dir: String::from(r"C:\Steam\steamapps\common\Counter-Strike Global Offensive\csgo"),
        map_path: String::from(r""),
        ..Default::default()
    };

    // 3. Define the path to the executable.
    let executable_path = text_of_path(PathBuf::from(&context.bin_dir).join("vbsp.exe"));

    // 4. Build the final command.
    let command_info = compiler.build_command(&context, Some(executable_path.clone()));

    // 5. Assert all parts of the final CommandInfo are correct.
    assert_eq!(command_info.compiler_path, executable_path);

    let expected_args: Vec<String> = vec![
        "-game", r"C:\CustomGame\game",
        r"C:\maps\my_map_final.vmf",
        "-verbose",
        "-onlyents",
        "-micro", "0.5",
        "-staticpropcombine_mininstances", "10",
    ].into_iter().map(String::from).collect();
    assert_eq!(command_info.args, expected_args);

    let expected_wd = String::from(r"C:\Steam\steamapps\common\Counter-Strike Global Offensive\bin");
    assert_eq!(command_info.working_dir, expected_wd);
}

/// Context replacement with empty context values and default arguments.
#[test]
fn test_context_replacement_with_empty_context() {
    let compiler = vbsp_default();
    let context = CompilerContext::default();

    let executable = String::from("vbsp");

    let command_info = compiler.build_command(&context, Some(executable.clone()));

    assert_eq!(command_info.working_dir, String::from(""));
    assert_eq!(command_info.compiler_path, executable);

    let expected_args: Vec<String> = vec!["-game".to_string(), "".to_string(), "".to_string()];
    assert_eq!(command_info.args, expected_args);
}

/// Default arguments are applied when no explicit arguments are added.
#[test]
fn test_default_arguments_only() {
    let compiler = vbsp_default();

    let context = CompilerContext {
        bin_dir: String::from("/some/bin"),
        game_dir: String::from("/some/game"),
        map_path: String::from("/some/map.vmf"),
        ..Default::default()
    };

    let executable_path = text_of_path(PathBuf::from(&context.bin_dir).join("vbsp.exe"));
    let command_info = compiler.build_command(&context, Some(executable_path.clone()));

    assert_eq!(command_info.compiler_path, executable_path);
    let expected_args: Vec<String> = vec![
        "-game".to_string(),
        context.game_dir.clone(),
        context.map_path.clone(),
    ];
    assert_eq!(command_info.args, expected_args);
    assert_eq!(command_info.working_dir, context.bin_dir);
}

/// Arguments with default values are handled correctly.
#[test]
fn test_default_value_arguments() {
    let mut compiler = vbsp_default();
    compiler.add_arg(float(micro_volume_test(), 1.0));
    compiler.add_arg(integer(min_instances(), 3));

    let context = CompilerContext {
        bin_dir: String::from("/bin"),
        game_dir: String::from("/game"),
        map_path: String::from("/map.vmf"),
        ..Default::default()
    };

    let command_info = compiler.build_command(&context, None);

    let expected_args: Vec<String> = vec![
        "-game",
        &context.game_dir,
        &context.map_path,
        "-micro",
        "1",
        "-staticpropcombine_mininstances",
        "3",
    ]
    .into_iter()
    .map(String::from)
    .collect();
    assert_eq!(command_info.args, expected_args);
}

/// Flag arguments are correctly added and formatted.
#[test]
fn test_flag_arguments() {
    let mut compiler = vbsp_default();
    compiler.add_arg(flag(only_entities()));
    compiler.add_arg(flag(no_water()));
    compiler.add_arg(flag(verbose()));

    let context = CompilerContext::default();
    let executable_path = String::from("vbsp.exe");
    let command_info = compiler.build_command(&context, Some(executable_path.clone()));

    let expected_args: Vec<String> =
        vec!["-game", "", "", "-onlyents", "-nowater", "-verbose"]
            .into_iter()
            .map(String::from)
            .collect();
    assert_eq!(command_info.args, expected_args);
}

/// Path arguments are correctly formatted with spaces.
#[test]
fn test_path_arguments() {
    let mut compiler = vbsp_new();
    compiler.add_arg(path(game_directory(), r"C:\Program Files (x86)\Steam\steamapps\common\MyGame"));
    compiler.add_arg(path(map_file(), r"D:\Maps For Game\level_01.vmf"));

    let context = CompilerContext::default();
    let executable_path = String::from("vbsp.exe");
    let command_info = compiler.build_command(&context, Some(executable_path.clone()));

    let expected_args: Vec<String> = vec![
        "-game",
        r"C:\Program Files (x86)\Steam\steamapps\common\MyGame",
        r"D:\Maps For Game\level_01.vmf",
    ]
    .into_iter()
    .map(String::from)
    .collect();
    assert_eq!(command_info.args, expected_args);
}

/// Negative float and integer arguments are handled.
#[test]
fn test_negative_number_arguments() {
    let mut compiler = vbsp_default();
    compiler.add_arg(float(micro_volume_test(), -0.1));
    compiler.add_arg(integer(min_instances(), -5));

    let context = CompilerContext::default();
    let executable_path = String::from("vbsp.exe");
    let command_info = compiler.build_command(&context, Some(executable_path.clone()));

    let expected_args: Vec<String> = vec![
        "-game",
        "",
        "",
        "-micro",
        "-0.1",
        "-staticpropcombine_mininstances",
        "-5",
    ]
    .into_iter()
    .map(String::from)
    .collect();
    assert_eq!(command_info.args, expected_args);
}
