use vulkan_sdk::download::{archive_name, archive_path, progress_total, ADDRESS, FILE_SIZE};
use vulkan_sdk::env_vars::{persistent_plan, process_plan, EnvVarSpec, WriteMode};
use vulkan_sdk::store::{
    defines, definition_line, has_definition, persist, persist_plan, prepend_segment, process_update,
    rendered_value, apply_plan,
};

fn spec(name: &str, mode: WriteMode, value: &str) -> EnvVarSpec {
    EnvVarSpec { name: name.to_string(), mode, value: value.to_string() }
}

#[test]
fn definition_lines_are_exact() {
    let sdk = spec("VULKAN_SDK", WriteMode::SetIfAbsent, "$HOME/.vulkan_sdk/macOS");
    assert_eq!(rendered_value(&sdk), "\"$HOME/.vulkan_sdk/macOS\"");
    assert_eq!(definition_line(&sdk), "export VULKAN_SDK=\"$HOME/.vulkan_sdk/macOS\"");
    let path = spec("PATH", WriteMode::AppendPath, "$VULKAN_SDK/bin");
    assert_eq!(definition_line(&path), "export PATH=\"$VULKAN_SDK/bin:$PATH\"");
}

#[test]
fn persist_twice_on_empty_profile_gives_one_line() {
    let sdk = spec("VULKAN_SDK", WriteMode::SetIfAbsent, "$HOME/.vulkan_sdk/macOS");
    let once = persist(&Vec::new(), &sdk);
    let twice = persist(&once, &sdk);
    assert_eq!(twice, vec!["export VULKAN_SDK=\"$HOME/.vulkan_sdk/macOS\"".to_string()]);
    let path = spec("PATH", WriteMode::AppendPath, "$VULKAN_SDK/bin");
    let once = persist(&Vec::new(), &path);
    assert_eq!(persist(&once, &path), vec!["export PATH=\"$VULKAN_SDK/bin:$PATH\"".to_string()]);
}

#[test]
fn set_if_absent_keeps_an_existing_definition() {
    let profile = vec!["# profile".to_string(), "export VK_LAYER_PATH=/elsewhere".to_string()];
    let layer = spec("VK_LAYER_PATH", WriteMode::SetIfAbsent, "$VULKAN_SDK/etc/vulkan/explicit_layer.d");
    assert!(has_definition(&profile, &layer));
    assert_eq!(persist(&profile, &layer), profile);
}

#[test]
fn append_path_adds_its_line_after_other_definitions() {
    let profile = vec!["export PATH=/usr/local/bin:$PATH".to_string()];
    let path = spec("PATH", WriteMode::AppendPath, "$VULKAN_SDK/bin");
    assert!(!has_definition(&profile, &path));
    let r = persist(&profile, &path);
    assert_eq!(r.len(), 2);
    assert_eq!(r[1], "export PATH=\"$VULKAN_SDK/bin:$PATH\"");
}

#[test]
fn defines_matches_the_name_exactly() {
    assert!(defines("export PATH=/bin", "PATH"));
    assert!(!defines("export PATHS=/bin", "PATH"));
    assert!(!defines("", "PATH"));
    assert!(!defines("# export PATH=/bin", "PATH"));
}

#[test]
fn defines_accepts_blanks_and_bare_assignments() {
    assert!(defines("PATH=/bin", "PATH"));
    assert!(defines("   export PATH=/bin", "PATH"));
    assert!(defines("\tVK_LAYER_PATH=/x", "VK_LAYER_PATH"));
    assert!(!defines("  PATHS=/bin", "PATH"));
    let profile = vec!["  VK_LAYER_PATH=/elsewhere".to_string()];
    let layer = spec("VK_LAYER_PATH", WriteMode::SetIfAbsent, "/x");
    assert_eq!(persist(&profile, &layer), profile);
}

#[test]
fn persist_plan_twice_equals_once() {
    let plan = persistent_plan();
    let once = persist_plan(&Vec::new(), &plan);
    assert_eq!(once.len(), 6);
    for (line, s) in once.iter().zip(plan.iter()) {
        assert_eq!(*line, definition_line(s));
    }
    assert_eq!(persist_plan(&once, &plan), once);
    assert_eq!(once[0], "export VULKAN_SDK=\"$HOME/.vulkan_sdk/macOS\"");
    assert_eq!(once[1], "export PATH=\"$VULKAN_SDK/bin:$PATH\"");
}

#[test]
fn applying_a_path_list_twice_changes_nothing() {
    let path = spec("PATH", WriteMode::AppendPath, "/r/bin");
    let first = process_update(&path, Some(&vec!["/usr/bin".to_string()])).unwrap();
    assert_eq!(first, vec!["/r/bin".to_string(), "/usr/bin".to_string()]);
    assert_eq!(process_update(&path, Some(&first)), None);
    let fresh = process_update(&path, None).unwrap();
    assert_eq!(process_update(&path, Some(&fresh)), None);
}

#[test]
fn prepended_segment_comes_first() {
    let list = vec!["A".to_string(), "B".to_string()];
    let r = prepend_segment(&list, &"C".to_string());
    assert_eq!(r, vec!["C".to_string(), "A".to_string(), "B".to_string()]);
    // a first-match-wins lookup finds the new segment before A and B
    assert_eq!(r.iter().find(|p| ["A", "B", "C"].contains(&p.as_str())).unwrap(), "C");
}

#[test]
fn process_update_follows_the_write_mode() {
    let lib = spec("SHADERC_LIB_DIR", WriteMode::SetIfAbsent, "/r/lib");
    assert_eq!(process_update(&lib, None), Some(vec!["/r/lib".to_string()]));
    assert_eq!(process_update(&lib, Some(&vec!["/x".to_string()])), None);
    let path = spec("PATH", WriteMode::AppendPath, "/r/bin");
    assert_eq!(
        process_update(&path, Some(&vec!["/usr/bin".to_string(), "/bin".to_string()])),
        Some(vec!["/r/bin".to_string(), "/usr/bin".to_string(), "/bin".to_string()])
    );
    assert_eq!(process_update(&path, None), Some(vec!["/r/bin".to_string()]));
}

#[test]
fn archive_name_is_last_segment_or_default() {
    assert_eq!(archive_name(ADDRESS), "vulkan-sdk.tar.gz");
    assert_eq!(archive_name("https://host/dl/vulkansdk-macos-1.1.tar.gz"), "vulkansdk-macos-1.1.tar.gz");
    assert_eq!(archive_name("https://host/dl/"), "vulkan-sdk.tar.gz");
    assert_eq!(archive_name(""), "vulkan-sdk.tar.gz");
    assert_eq!(archive_name("https://host/dl/a.tar.gz?x=1"), "a.tar.gz");
    assert_eq!(archive_name("https://host/dl/a.tar.gz#top"), "a.tar.gz");
    assert_eq!(archive_name("https://host"), "vulkan-sdk.tar.gz");
    assert_eq!(archive_name("https://host/?q=a/b"), "vulkan-sdk.tar.gz");
    assert_eq!(archive_name("plain"), "vulkan-sdk.tar.gz");
}

#[test]
fn archive_path_joins_dir_and_name() {
    assert_eq!(archive_path("/h/.vulkan_sdk", "a.tar.gz"), "/h/.vulkan_sdk/a.tar.gz");
}

#[test]
fn progress_total_falls_back_to_estimate() {
    assert_eq!(progress_total(0), FILE_SIZE);
    assert_eq!(progress_total(0), 209_715_200);
    assert_eq!(progress_total(1234), 1234);
}

#[test]
fn fixup_applies_every_variable_in_order() {
    let plan = process_plan("/Users/me");
    let current = vec![None, Some(vec!["/usr/bin".to_string()]), None, None, Some(vec!["/mine".to_string()]), None];
    let r = apply_plan(&plan, &current);
    let root = "/Users/me/.vulkan_sdk/macOS";
    assert_eq!(r[0], Some(vec![root.to_string()]));
    assert_eq!(r[1], Some(vec![format!("{}/bin", root), "/usr/bin".to_string()]));
    assert_eq!(r[2], Some(vec![format!("{}/lib", root)]));
    assert_eq!(r[3], Some(vec![format!("{}/etc/vulkan/icd.d/MoltenVK_icd.json", root)]));
    assert_eq!(r[4], None);
    assert_eq!(r[5], Some(vec![format!("{}/lib", root)]));
    // applying again to the updated values changes nothing
    let after: Vec<Option<Vec<String>>> =
        r.iter().zip(current.iter()).map(|(u, c)| u.clone().or_else(|| c.clone())).collect();
    assert!(apply_plan(&plan, &after).iter().all(|u| u.is_none()));
}
