//! Wizard tests: the rendered configuration text for concrete answers.

use context_keeper::wizard::render_config_toml;

#[test]
fn full_answers_render_every_section() {
    let text = render_config_toml(
        "demo",
        "yocto",
        "docker",
        "./build.sh",
        "configs",
        "Build inside the container.",
    );
    let expected = "# ContextKeeper Configuration\n\n[project]\nname = \"demo\"\ntype = \"yocto\"\n\n[scripts]\nentry_point = \"./build.sh\"\nconfig_dir = \"configs\"\nconfig_pattern = \"*.conf\"\n\n[containers]\nruntime = \"docker\"\n\n[hints]\ndefault = \"Build inside the container.\"\n\n[history]\nenabled = true\npatterns = [\n    \"source.*oe-init\",\n    \"bitbake\\\\s+\\\\S+\",\n    \"MACHINE=\",\n    \"devtool\\\\s+\\\\S+\",\n]\nmax_entries = 20\n\n[git]\nauto_detect = true\nscan_depth = 2\n";
    assert_eq!(text, expected);
}

#[test]
fn bare_answers_skip_optional_sections() {
    let text = render_config_toml("demo", "custom", "none", "", "", "");
    assert!(!text.contains("[scripts]"));
    assert!(!text.contains("[containers]"));
    assert!(!text.contains("[hints]"));
    assert!(text.contains("[project]\nname = \"demo\"\ntype = \"custom\"\n"));
    assert!(text.contains("    \"export\\\\s+\\\\w+=\",\n    \"source\\\\s+\",\n]\n"));
}
