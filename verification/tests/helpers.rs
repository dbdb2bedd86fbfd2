use procs::kind::{find_column_kind, ConfigColumnKind};
use procs::numfmt::{bytify, change_endian, format_sid, parse_time};
use procs::pathshort::{
    format_command, truncate_command_path, truncate_home_path, truncate_nix_store_path,
};

#[test]
fn exact_kind_match_is_case_insensitive() {
    assert_eq!(find_column_kind("CPU"), Some(ConfigColumnKind::Cpu));
    assert_eq!(find_column_kind("cpu"), Some(ConfigColumnKind::Cpu));
    assert_eq!(find_column_kind("Command"), Some(ConfigColumnKind::Command));
}

#[test]
fn substring_match_is_tried_after_every_exact_match_failed() {
    assert_eq!(find_column_kind("pu"), Some(ConfigColumnKind::Cpu));
    assert_eq!(find_column_kind("i"), Some(ConfigColumnKind::Pid));
}

#[test]
fn unknown_kind_resolves_to_none() {
    assert_eq!(find_column_kind("zzz"), None);
}

#[test]
fn store_path_shortens_to_root_ellipsis_and_final_component() {
    assert_eq!(
        truncate_nix_store_path("/nix/store/abcdef123-foo-1.0/bin/foo".to_string()),
        "/nix/store/...foo",
    );
}

#[test]
fn store_path_with_too_few_components_passes_through() {
    assert_eq!(truncate_nix_store_path("/nix/store/abc".to_string()), "/nix/store/abc");
    assert_eq!(truncate_nix_store_path("/nix/store/".to_string()), "/nix/store/");
}

#[test]
fn non_store_path_passes_through() {
    assert_eq!(truncate_nix_store_path("/usr/bin/tool".to_string()), "/usr/bin/tool");
}

#[test]
fn home_prefix_becomes_a_tilde() {
    let home = Some("/home/u".to_string());
    assert_eq!(truncate_home_path("/home/u/x".to_string(), &home), "~/x");
    assert_eq!(truncate_home_path("/home/u".to_string(), &home), "~/");
    assert_eq!(truncate_home_path("/home/ux".to_string(), &home), "/home/ux");
    assert_eq!(truncate_home_path("/opt/x".to_string(), &home), "/opt/x");
    assert_eq!(truncate_home_path("/home/u/x".to_string(), &None), "/home/u/x");
}

#[test]
fn command_path_pipeline_applies_store_then_home() {
    let home = Some("/home/u".to_string());
    assert_eq!(truncate_command_path("/home/u/bin/tool".to_string(), &home), "~/bin/tool");
    assert_eq!(format_command("/home/u/bin/tool".to_string(), true, &home), "~/bin/tool");
    assert_eq!(
        format_command("/home/u/bin/tool".to_string(), false, &home),
        "/home/u/bin/tool",
    );
}

#[test]
fn short_durations_render_as_clock_time() {
    assert_eq!(parse_time(0), "00:00:00");
    assert_eq!(parse_time(3661), "01:01:01");
    assert_eq!(parse_time(86399), "23:59:59");
}

#[test]
fn long_durations_render_as_days_or_years_with_one_decimal() {
    assert_eq!(parse_time(86400), "1.0days");
    assert_eq!(parse_time(129600), "1.5days");
    assert_eq!(parse_time(31535999), "365.0days");
    assert_eq!(parse_time(31536000), "1.0years");
    assert_eq!(parse_time(47304000), "1.5years");
}

#[test]
fn sid_renders_every_sub_authority_or_an_abbreviation() {
    assert_eq!(format_sid(&[1, 2, 3], false), "S-1-2-3");
    assert_eq!(format_sid(&[1, 2, 3], true), "S-1-2-3");
    assert_eq!(format_sid(&[1, 2, 3, 4, 5], false), "S-1-2-3-4-5");
    assert_eq!(format_sid(&[1, 2, 3, 4, 5], true), "S-1-2-3-...-5");
}

#[test]
fn change_endian_reverses_the_bytes() {
    assert_eq!(change_endian(0x12345678), 0x78563412);
    assert_eq!(change_endian(0), 0);
    assert_eq!(change_endian(0xff000000), 0x000000ff);
}

#[test]
fn bytify_renders_compact_binary_units() {
    assert_eq!(bytify(0), "0");
    assert_eq!(bytify(500), "500");
    assert_eq!(bytify(1024), "1.000K");
    assert_eq!(bytify(1536), "1.500K");
    assert_eq!(bytify(1048576), "1.000M");
}
