use valve_compilers::{CompilerContext, Placeholder};

fn sample() -> CompilerContext {
    CompilerContext::new(
        Some(String::from("/tools/bin")),
        Some(String::from("/games/csgo")),
        Some(String::from("/maps/de_dust2.vmf")),
        None,
    )
}

#[test]
fn new_derives_the_parts_of_the_map_path() {
    let context = sample();
    assert_eq!(context.bin_dir, "/tools/bin");
    assert_eq!(context.game_dir, "/games/csgo");
    assert_eq!(context.map_path, "/maps/de_dust2.vmf");
    assert_eq!(context.map_dir, "/maps");
    assert_eq!(context.map_name, "de_dust2");
    assert_eq!(context.map_name_ext, "de_dust2.vmf");
    assert_eq!(context.map_ext, "vmf");
    assert_eq!(context.bsp_path, "/maps/de_dust2.bsp");
}

#[test]
fn out_dir_defaults_to_the_map_directory() {
    assert_eq!(sample().out_dir, "/maps");
    let given = CompilerContext::new(
        None,
        None,
        Some(String::from("/maps/de_dust2.vmf")),
        Some(String::from("/out")),
    );
    assert_eq!(given.out_dir, "/out");
    assert_eq!(given.map_dir, "/maps");
}

#[test]
fn map_path_without_extension_has_empty_extension() {
    let context = CompilerContext::new(None, None, Some(String::from("/maps/de_dust2")), None);
    assert_eq!(context.map_ext, "");
    assert_eq!(context.map_name, "de_dust2");
    assert_eq!(context.map_name_ext, "de_dust2");
    assert_eq!(context.bsp_path, "/maps/de_dust2.bsp");
}

#[test]
fn map_path_without_directory_has_empty_directory() {
    let context = CompilerContext::new(None, None, Some(String::from("de_dust2.vmf")), None);
    assert_eq!(context.map_dir, "");
    assert_eq!(context.out_dir, "");
    assert_eq!(context.map_name, "de_dust2");
}

#[test]
fn no_paths_give_a_blank_context() {
    let context = CompilerContext::new(None, None, None, None);
    for text in [
        &context.bin_dir,
        &context.game_dir,
        &context.map_path,
        &context.out_dir,
        &context.map_dir,
        &context.map_name,
        &context.map_name_ext,
        &context.map_ext,
        &context.bsp_path,
    ] {
        assert_eq!(text, "");
    }
}

#[test]
fn empty_map_path_gives_what_no_map_path_gives() {
    let context = CompilerContext::new(None, None, Some(String::new()), None);
    assert_eq!(context.map_dir, "");
    assert_eq!(context.map_name, "");
    assert_eq!(context.map_name_ext, "");
    assert_eq!(context.map_ext, "");
    assert_eq!(context.bsp_path, "");
}

#[test]
fn every_key_resolves_to_its_text() {
    let context = sample();
    assert_eq!(context.replace("$binDir"), "/tools/bin");
    assert_eq!(context.replace("$gameDir"), "/games/csgo");
    assert_eq!(context.replace("$mapPath"), "/maps/de_dust2.vmf");
    assert_eq!(context.replace("$outDir"), "/maps");
    assert_eq!(context.replace("$mapDir"), "/maps");
    assert_eq!(context.replace("$mapNameExt"), "de_dust2.vmf");
    assert_eq!(context.replace("$mapName"), "de_dust2");
    assert_eq!(context.replace("$mapExt"), "vmf");
    assert_eq!(context.replace("$bspPath"), "/maps/de_dust2.bsp");
    assert_eq!(context.replace("$file"), "de_dust2");
    assert_eq!(context.replace("$path"), "/maps/de_dust2.vmf");
}

#[test]
fn longer_key_is_resolved_before_its_prefix() {
    let context = sample();
    assert_eq!(context.replace("$mapNameExt"), "de_dust2.vmf");
    assert_ne!(context.replace("$mapNameExt"), "de_dust2Ext");
    assert_eq!(context.replace("$mapNameExtra"), "de_dust2.vmfra");
    assert_eq!(context.replace("$mapNameE"), "de_dust2E");
}

#[test]
fn unknown_placeholder_passes_through() {
    let context = sample();
    assert_eq!(context.replace("$unknownThing"), "$unknownThing");
    assert_eq!(context.replace("costs 5$"), "costs 5$");
    assert_eq!(context.replace("$$"), "$$");
    assert_eq!(context.replace("$"), "$");
    assert_eq!(context.replace("$bindir"), "$bindir");
}

#[test]
fn text_around_placeholders_is_copied() {
    let context = sample();
    assert_eq!(context.replace(""), "");
    assert_eq!(context.replace("plain text"), "plain text");
    assert_eq!(context.replace("-game $gameDir -o $outDir/$mapName.bsp"), "-game /games/csgo -o /maps/de_dust2.bsp");
    assert_eq!(context.replace("$$file"), "$de_dust2");
    assert_eq!(context.replace("$mapName$mapExt"), "de_dust2vmf");
    assert_eq!(context.replace("h\u{e9}llo $file \u{1F600}"), "h\u{e9}llo de_dust2 \u{1F600}");
}

#[test]
fn substituted_text_is_not_scanned_again() {
    let context = CompilerContext {
        bin_dir: String::from("$gameDir"),
        game_dir: String::from("/game"),
        ..Default::default()
    };
    assert_eq!(context.replace("$binDir"), "$gameDir");
    // The first result holds a placeholder, so a second pass changes it.
    assert_eq!(context.replace(&context.replace("$binDir")), "/game");
}

#[test]
fn substitution_is_idempotent_without_placeholders_in_the_result() {
    let context = sample();
    for template in ["-game $gameDir", "$mapNameExt", "$unknownThing", "a $ b", ""] {
        let once = context.replace(template);
        assert_eq!(context.replace(&once), once);
        assert_eq!(context.replace(template), once);
    }
}

#[test]
fn blank_context_resolves_every_placeholder_to_nothing() {
    let context = CompilerContext::default();
    assert_eq!(context.replace("-game $gameDir"), "-game ");
    for key in [
        "$binDir", "$gameDir", "$mapPath", "$outDir", "$mapDir", "$mapNameExt", "$mapName",
        "$mapExt", "$bspPath", "$file", "$path",
    ] {
        assert_eq!(context.replace(key), "");
    }
    assert_eq!(context.replace("$nothing"), "$nothing");
}

#[test]
fn get_placeholder_value_names_the_key_and_its_text() {
    let context = sample();
    assert_eq!(
        context.get_placeholder_value("$mapNameExt and more"),
        Some(("mapNameExt", String::from("de_dust2.vmf")))
    );
    assert_eq!(context.get_placeholder_value("$mapName"), Some(("mapName", String::from("de_dust2"))));
    assert_eq!(context.get_placeholder_value("$file"), Some(("file", String::from("de_dust2"))));
    assert_eq!(context.get_placeholder_value("$path"), Some(("path", String::from("/maps/de_dust2.vmf"))));
    assert_eq!(context.get_placeholder_value("$unknown"), None);
    assert_eq!(context.get_placeholder_value("binDir"), None);
    assert_eq!(context.get_placeholder_value(""), None);
    assert_eq!(context.get_placeholder_value("$"), None);
}

#[test]
fn keys_have_their_texts() {
    assert_eq!(Placeholder::BinDir.key_str(), "binDir");
    assert_eq!(Placeholder::MapNameExt.key_str(), "mapNameExt");
    assert_eq!(Placeholder::Path.key_str(), "path");
    assert_eq!(sample().value(Placeholder::File), "de_dust2");
}
