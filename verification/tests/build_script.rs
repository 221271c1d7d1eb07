use std::path::PathBuf;

use piper_rs::cmake::{
    android_abi, android_api_level, cmake_bool_is_true, copy_succeeded, lib_name_from_stem,
    library_pattern, link_kind, link_name, ndk_host_tag, resolved_pcaudio_lib, resolved_sonic_lib,
    resolved_system_lib, shared_library_pattern,
};

fn path(lib: Option<String>) -> Option<PathBuf> {
    lib.map(PathBuf::from)
}

#[test]
fn build_resolves_sonic_lib_path_when_cmake_found_system_libsonic() {
    let cache = "SONIC_LIB:FILEPATH=/usr/lib/x86_64-linux-gnu/libsonic.so\n\
                  SONIC_INC:PATH=/usr/include\n\
                  USE_LIBSONIC:BOOL=ON\n";
    assert_eq!(
        path(resolved_sonic_lib(cache)),
        Some(PathBuf::from("/usr/lib/x86_64-linux-gnu/libsonic.so"))
    );
}

#[test]
fn build_returns_none_for_sonic_when_use_libsonic_is_off() {
    let cache = "SONIC_LIB:FILEPATH=SONIC_LIB-NOTFOUND\n\
                  SONIC_INC:PATH=SONIC_INC-NOTFOUND\n\
                  USE_LIBSONIC:BOOL=OFF\n";
    assert_eq!(path(resolved_sonic_lib(cache)), None);
}

#[test]
fn build_returns_none_for_sonic_when_falling_back_to_in_tree_fetchcontent_build() {
    let cache = "SONIC_LIB:FILEPATH=SONIC_LIB-NOTFOUND\n\
                  SONIC_INC:PATH=SONIC_INC-NOTFOUND\n\
                  USE_LIBSONIC:BOOL=ON\n";
    assert_eq!(path(resolved_sonic_lib(cache)), None);
}

#[test]
fn build_returns_none_for_sonic_when_cache_missing_keys() {
    let cache = "CMAKE_INSTALL_PREFIX:PATH=/out\n";
    assert_eq!(path(resolved_sonic_lib(cache)), None);
}

#[test]
fn build_treats_true_as_enabled_for_sonic_like_cmake_boolean_semantics() {
    let cache = "SONIC_LIB:FILEPATH=/usr/lib/x86_64-linux-gnu/libsonic.so\n\
                  SONIC_INC:PATH=/usr/include\n\
                  USE_LIBSONIC:BOOL=TRUE\n";
    assert_eq!(
        path(resolved_sonic_lib(cache)),
        Some(PathBuf::from("/usr/lib/x86_64-linux-gnu/libsonic.so"))
    );
}

#[test]
fn build_resolves_lib_path_when_cmake_enabled_and_found_pcaudio() {
    let cache = "PCAUDIO_LIB:FILEPATH=/usr/lib/x86_64-linux-gnu/libpcaudio.so\n\
                  PCAUDIO_INC:PATH=/usr/include\n\
                  USE_LIBPCAUDIO:BOOL=ON\n";
    assert_eq!(
        path(resolved_pcaudio_lib(cache)),
        Some(PathBuf::from("/usr/lib/x86_64-linux-gnu/libpcaudio.so"))
    );
}

#[test]
fn build_returns_none_when_use_libpcaudio_is_off() {
    let cache = "PCAUDIO_LIB:FILEPATH=PCAUDIO_LIB-NOTFOUND\n\
                  PCAUDIO_INC:PATH=PCAUDIO_INC-NOTFOUND\n\
                  USE_LIBPCAUDIO:BOOL=OFF\n";
    assert_eq!(path(resolved_pcaudio_lib(cache)), None);
}

#[test]
fn build_returns_none_when_lib_path_is_notfound_despite_use_libpcaudio_on() {
    let cache = "PCAUDIO_LIB:FILEPATH=PCAUDIO_LIB-NOTFOUND\n\
                  PCAUDIO_INC:PATH=/usr/include\n\
                  USE_LIBPCAUDIO:BOOL=ON\n";
    assert_eq!(path(resolved_pcaudio_lib(cache)), None);
}

#[test]
fn build_returns_none_when_cache_missing_keys() {
    let cache = "CMAKE_INSTALL_PREFIX:PATH=/out\n";
    assert_eq!(path(resolved_pcaudio_lib(cache)), None);
}

#[test]
fn build_treats_true_as_enabled_like_cmake_boolean_semantics() {
    let cache = "PCAUDIO_LIB:FILEPATH=/usr/lib/x86_64-linux-gnu/libpcaudio.so\n\
                  PCAUDIO_INC:PATH=/usr/include\n\
                  USE_LIBPCAUDIO:BOOL=TRUE\n";
    assert_eq!(
        path(resolved_pcaudio_lib(cache)),
        Some(PathBuf::from("/usr/lib/x86_64-linux-gnu/libpcaudio.so"))
    );
}

#[test]
fn build_treats_1_as_enabled_like_cmake_boolean_semantics() {
    let cache = "PCAUDIO_LIB:FILEPATH=/usr/lib/x86_64-linux-gnu/libpcaudio.so\n\
                  PCAUDIO_INC:PATH=/usr/include\n\
                  USE_LIBPCAUDIO:BOOL=1\n";
    assert_eq!(
        path(resolved_pcaudio_lib(cache)),
        Some(PathBuf::from("/usr/lib/x86_64-linux-gnu/libpcaudio.so"))
    );
}

#[test]
fn unix_copy_succeeds_only_on_exit_code_zero() {
    assert!(copy_succeeded(false, Some(0)));
    assert!(!copy_succeeded(false, Some(1)));
    assert!(!copy_succeeded(false, None));
}

#[test]
fn robocopy_copy_succeeds_below_the_failure_bit() {
    assert!(copy_succeeded(true, Some(0)));
    assert!(copy_succeeded(true, Some(1)));
    assert!(copy_succeeded(true, Some(7)));
    assert!(!copy_succeeded(true, Some(8)));
    assert!(!copy_succeeded(true, None));
}

#[test]
fn cmake_booleans_follow_cmake_rules() {
    for t in ["ON", "on", "Yes", "true", "Y", "y", "1", "-3", "+42", "007"] {
        assert!(cmake_bool_is_true(t), "{t} should be true");
    }
    for f in [
        "OFF", "off", "No", "FALSE", "n", "IGNORE", "NotFound", "", "0", "-0", "+", "-",
        "FOO-NOTFOUND", "foo-notfound", "abc", "1.5", " 1", "9223372036854775808",
    ] {
        assert!(!cmake_bool_is_true(f), "{f:?} should be false");
    }
    assert!(cmake_bool_is_true("9223372036854775807"));
    assert!(cmake_bool_is_true("-9223372036854775808"));
    assert!(!cmake_bool_is_true("-9223372036854775809"));
}

#[test]
fn the_last_assignment_in_the_cache_wins() {
    let cache = "USE_X:BOOL=OFF\nX_LIB:FILEPATH=/old/libx.so\nX_INC:PATH=/inc\n\
                 X_LIB:FILEPATH=/new/libx.so\r\n  USE_X:BOOL=on  \n";
    assert_eq!(
        resolved_system_lib(cache, "USE_X:BOOL=", "X_LIB:FILEPATH=", "X_INC:PATH="),
        Some("/new/libx.so".to_string())
    );
}

#[test]
fn an_empty_or_notfound_include_dir_is_not_resolved() {
    let empty_inc = "USE_X:BOOL=ON\nX_LIB:FILEPATH=/l\nX_INC:PATH=";
    assert_eq!(resolved_system_lib(empty_inc, "USE_X:BOOL=", "X_LIB:FILEPATH=", "X_INC:PATH="), None);
    let lower = "USE_X:BOOL=ON\nX_LIB:FILEPATH=/l\nX_INC:PATH=x-notfound";
    assert_eq!(
        resolved_system_lib(lower, "USE_X:BOOL=", "X_LIB:FILEPATH=", "X_INC:PATH="),
        Some("/l".to_string())
    );
}

#[test]
fn build_script_tests_resolves_sonic_lib_path_when_cmake_found_system_libsonic() {
    let cache = "SONIC_LIB:FILEPATH=/usr/lib/x86_64-linux-gnu/libsonic.so\n\
                  SONIC_INC:PATH=/usr/include\n\
                  USE_LIBSONIC:BOOL=ON\n";
    assert_eq!(
        path(resolved_sonic_lib(cache)),
        Some(PathBuf::from("/usr/lib/x86_64-linux-gnu/libsonic.so"))
    );
}

#[test]
fn build_script_tests_returns_none_for_sonic_when_use_libsonic_is_off() {
    let cache = "SONIC_LIB:FILEPATH=SONIC_LIB-NOTFOUND\n\
                  SONIC_INC:PATH=SONIC_INC-NOTFOUND\n\
                  USE_LIBSONIC:BOOL=OFF\n";
    assert_eq!(path(resolved_sonic_lib(cache)), None);
}

#[test]
fn build_script_tests_returns_none_for_sonic_when_falling_back_to_in_tree_fetchcontent_build() {
    let cache = "SONIC_LIB:FILEPATH=SONIC_LIB-NOTFOUND\n\
                  SONIC_INC:PATH=SONIC_INC-NOTFOUND\n\
                  USE_LIBSONIC:BOOL=ON\n";
    assert_eq!(path(resolved_sonic_lib(cache)), None);
}

#[test]
fn build_script_tests_returns_none_for_sonic_when_cache_missing_keys() {
    let cache = "CMAKE_INSTALL_PREFIX:PATH=/out\n";
    assert_eq!(path(resolved_sonic_lib(cache)), None);
}

#[test]
fn build_script_tests_treats_true_as_enabled_for_sonic_like_cmake_boolean_semantics() {
    let cache = "SONIC_LIB:FILEPATH=/usr/lib/x86_64-linux-gnu/libsonic.so\n\
                  SONIC_INC:PATH=/usr/include\n\
                  USE_LIBSONIC:BOOL=TRUE\n";
    assert_eq!(
        path(resolved_sonic_lib(cache)),
        Some(PathBuf::from("/usr/lib/x86_64-linux-gnu/libsonic.so"))
    );
}

#[test]
fn build_script_tests_resolves_lib_path_when_cmake_enabled_and_found_pcaudio() {
    let cache = "PCAUDIO_LIB:FILEPATH=/usr/lib/x86_64-linux-gnu/libpcaudio.so\n\
                  PCAUDIO_INC:PATH=/usr/include\n\
                  USE_LIBPCAUDIO:BOOL=ON\n";
    assert_eq!(
        path(resolved_pcaudio_lib(cache)),
        Some(PathBuf::from("/usr/lib/x86_64-linux-gnu/libpcaudio.so"))
    );
}

#[test]
fn build_script_tests_returns_none_when_use_libpcaudio_is_off() {
    let cache = "PCAUDIO_LIB:FILEPATH=PCAUDIO_LIB-NOTFOUND\n\
                  PCAUDIO_INC:PATH=PCAUDIO_INC-NOTFOUND\n\
                  USE_LIBPCAUDIO:BOOL=OFF\n";
    assert_eq!(path(resolved_pcaudio_lib(cache)), None);
}

#[test]
fn build_script_tests_returns_none_when_lib_path_is_notfound_despite_use_libpcaudio_on() {
    let cache = "PCAUDIO_LIB:FILEPATH=PCAUDIO_LIB-NOTFOUND\n\
                  PCAUDIO_INC:PATH=/usr/include\n\
                  USE_LIBPCAUDIO:BOOL=ON\n";
    assert_eq!(path(resolved_pcaudio_lib(cache)), None);
}

#[test]
fn build_script_tests_returns_none_when_cache_missing_keys() {
    let cache = "CMAKE_INSTALL_PREFIX:PATH=/out\n";
    assert_eq!(path(resolved_pcaudio_lib(cache)), None);
}

#[test]
fn build_script_tests_treats_true_as_enabled_like_cmake_boolean_semantics() {
    let cache = "PCAUDIO_LIB:FILEPATH=/usr/lib/x86_64-linux-gnu/libpcaudio.so\n\
                  PCAUDIO_INC:PATH=/usr/include\n\
                  USE_LIBPCAUDIO:BOOL=TRUE\n";
    assert_eq!(
        path(resolved_pcaudio_lib(cache)),
        Some(PathBuf::from("/usr/lib/x86_64-linux-gnu/libpcaudio.so"))
    );
}

#[test]
fn build_script_tests_treats_1_as_enabled_like_cmake_boolean_semantics() {
    let cache = "PCAUDIO_LIB:FILEPATH=/usr/lib/x86_64-linux-gnu/libpcaudio.so\n\
                  PCAUDIO_INC:PATH=/usr/include\n\
                  USE_LIBPCAUDIO:BOOL=1\n";
    assert_eq!(
        path(resolved_pcaudio_lib(cache)),
        Some(PathBuf::from("/usr/lib/x86_64-linux-gnu/libpcaudio.so"))
    );
}

#[test]
fn android_architectures_map_to_their_abi() {
    assert_eq!(android_abi("aarch64"), "arm64-v8a");
    assert_eq!(android_abi("arm"), "armeabi-v7a");
    assert_eq!(android_abi("x86"), "x86");
    assert_eq!(android_abi("x86_64"), "x86_64");
}

#[test]
fn library_patterns_follow_the_target() {
    assert_eq!(library_pattern("windows", true), "*.lib");
    assert_eq!(library_pattern("macos", true), "*.dylib");
    assert_eq!(library_pattern("macos", false), "*.a");
    assert_eq!(library_pattern("linux", true), "*.so");
    assert_eq!(library_pattern("android", false), "*.a");
    assert_eq!(shared_library_pattern("windows"), "*.dll");
    assert_eq!(shared_library_pattern("macos"), "*.dylib");
    assert_eq!(shared_library_pattern("linux"), "*.so");
    assert_eq!(ndk_host_tag("macos"), "darwin-x86_64");
    assert_eq!(ndk_host_tag("windows"), "windows-x86_64");
    assert_eq!(ndk_host_tag("linux"), "linux-x86_64");
}

#[test]
fn library_names_drop_the_lib_prefix() {
    assert_eq!(lib_name_from_stem("libespeak-ng"), "espeak-ng");
    assert_eq!(lib_name_from_stem("ucd"), "ucd");
    assert_eq!(lib_name_from_stem("lib"), "");
    assert_eq!(link_name(Some("libsonic"), "sonic"), "sonic");
    assert_eq!(link_name(Some("sonic"), "fallback"), "fallback");
    assert_eq!(link_name(None, "pcaudio"), "pcaudio");
    assert_eq!(link_kind(Some("a")), "static");
    assert_eq!(link_kind(Some("so")), "dylib");
    assert_eq!(link_kind(None), "dylib");
}

#[test]
fn the_android_api_level_defaults_to_21() {
    assert_eq!(android_api_level(None), 21);
    assert_eq!(android_api_level(Some("android-28")), 28);
    assert_eq!(android_api_level(Some("android-android-30")), 30);
    assert_eq!(android_api_level(Some("24")), 24);
    assert_eq!(android_api_level(Some("+26")), 26);
    assert_eq!(android_api_level(Some("android-")), 21);
    assert_eq!(android_api_level(Some("android-x")), 21);
    assert_eq!(android_api_level(Some("android-4294967296")), 21);
    assert_eq!(android_api_level(Some("android-4294967295")), 4294967295);
}
