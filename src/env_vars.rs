use vstd::prelude::*;

verus! {

/// How a variable is written.
#[derive(Clone, Copy, Debug, PartialEq, Eq, Structural)]
pub enum WriteMode {
    /// Written only when the variable has no value yet.
    SetIfAbsent,
    /// The value is a path segment placed in front of the variable's path list.
    AppendPath,
}

/// One environment variable with its value and write policy.
#[derive(Debug)]
pub struct EnvVarSpec {
    pub name: String,
    pub mode: WriteMode,
    pub value: String,
}

/// The directory the SDK lives under: `<home>/.vulkan_sdk`.
pub open spec fn sdk_dir_of(home: Seq<char>) -> Seq<char> {
    home + "/.vulkan_sdk"@
}

/// The install root: `<home>/.vulkan_sdk/macOS`.
pub open spec fn root_of(home: Seq<char>) -> Seq<char> {
    sdk_dir_of(home) + "/macOS"@
}

/// The loader library inside the install root.
pub open spec fn lib_file_of(home: Seq<char>) -> Seq<char> {
    root_of(home) + "/lib/libvulkan.1.dylib"@
}

/// `s` is the variable `name`, written by `mode`, with the value `value`.
pub open spec fn spec_entry(name: &str, mode: WriteMode, value: Seq<char>, s: EnvVarSpec) -> bool {
    s.name@ == name@ && s.mode == mode && s.value@ == value
}

/// The six variables, in their fixed order. `home` is what the primary
/// variable is derived from, `sdk` is what the other five are derived from.
pub open spec fn spec_plan_ok(home: Seq<char>, sdk: Seq<char>, p: Seq<EnvVarSpec>) -> bool {
    &&& p.len() == 6
    &&& spec_entry("VULKAN_SDK", WriteMode::SetIfAbsent, root_of(home), p[0])
    &&& spec_entry("PATH", WriteMode::AppendPath, sdk + "/bin"@, p[1])
    &&& spec_entry("DYLD_LIBRARY_PATH", WriteMode::AppendPath, sdk + "/lib"@, p[2])
    &&& spec_entry(
        "VK_ICD_FILENAMES",
        WriteMode::SetIfAbsent,
        sdk + "/etc/vulkan/icd.d/MoltenVK_icd.json"@,
        p[3],
    )
    &&& spec_entry(
        "VK_LAYER_PATH",
        WriteMode::SetIfAbsent,
        sdk + "/etc/vulkan/explicit_layer.d"@,
        p[4],
    )
    &&& spec_entry("SHADERC_LIB_DIR", WriteMode::SetIfAbsent, sdk + "/lib"@, p[5])
}

/// `a` followed by `b`, as a new string.
pub fn join_str(a: &str, b: &str) -> (r: String)
    ensures
        r@ == a@ + b@,
{
    let mut r = String::from_str(a);
    r.append(b);
    r
}

/// `<home>/.vulkan_sdk`.
pub fn sdk_dir(home: &str) -> (r: String)
    ensures
        r@ == sdk_dir_of(home@),
{
    join_str(home, "/.vulkan_sdk")
}

/// `<home>/.vulkan_sdk/macOS`, where the SDK is installed.
pub fn default_root(home: &str) -> (r: String)
    ensures
        r@ == root_of(home@),
{
    let d = sdk_dir(home);
    join_str(d.as_str(), "/macOS")
}

/// The loader library of an SDK installed under `home`.
pub fn default_lib_dir(home: &str) -> (r: String)
    ensures
        r@ == lib_file_of(home@),
{
    let root = default_root(home);
    join_str(root.as_str(), "/lib/libvulkan.1.dylib")
}

fn entry(name: &str, mode: WriteMode, base: &str, suffix: &str) -> (r: EnvVarSpec)
    ensures
        r.name@ == name@,
        r.mode == mode,
        r.value@ == base@ + suffix@,
{
    EnvVarSpec { name: String::from_str(name), mode, value: join_str(base, suffix) }
}

/// The six variables the SDK needs, in their fixed order: the primary
/// variable (from `home`), then `PATH`, `DYLD_LIBRARY_PATH`,
/// `VK_ICD_FILENAMES`, `VK_LAYER_PATH` and `SHADERC_LIB_DIR` (from `sdk`).
pub fn env_var_plan(home: &str, sdk: &str) -> (r: Vec<EnvVarSpec>)
    ensures
        spec_plan_ok(home@, sdk@, r@),
{
    let mut r: Vec<EnvVarSpec> = Vec::new();
    let root = default_root(home);
    r.push(EnvVarSpec {
        name: String::from_str("VULKAN_SDK"),
        mode: WriteMode::SetIfAbsent,
        value: root,
    });
    r.push(entry("PATH", WriteMode::AppendPath, sdk, "/bin"));
    r.push(entry("DYLD_LIBRARY_PATH", WriteMode::AppendPath, sdk, "/lib"));
    r.push(
        entry(
            "VK_ICD_FILENAMES",
            WriteMode::SetIfAbsent,
            sdk,
            "/etc/vulkan/icd.d/MoltenVK_icd.json",
        ),
    );
    r.push(entry("VK_LAYER_PATH", WriteMode::SetIfAbsent, sdk, "/etc/vulkan/explicit_layer.d"));
    r.push(entry("SHADERC_LIB_DIR", WriteMode::SetIfAbsent, sdk, "/lib"));
    r
}

/// The plan written to the shell profile: its values are expanded by the
/// shell, so they are phrased over `$HOME` and `$VULKAN_SDK`.
pub fn persistent_plan() -> (r: Vec<EnvVarSpec>)
    ensures
        spec_plan_ok("$HOME"@, "$VULKAN_SDK"@, r@),
{
    env_var_plan("$HOME", "$VULKAN_SDK")
}

/// The plan applied to the current process, with concrete paths.
pub fn process_plan(home: &str) -> (r: Vec<EnvVarSpec>)
    ensures
        spec_plan_ok(home@, root_of(home@), r@),
{
    let root = default_root(home);
    env_var_plan(home, root.as_str())
}

} // verus!
