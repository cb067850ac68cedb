use android_glue::AndroidBuildTarget;

#[test]
fn target_names() {
    let t = AndroidBuildTarget::ArmV7a;
    assert_eq!(t.android_abi(), "armeabi-v7a");
    assert_eq!(t.rust_triple(), "armv7-linux-androideabi");
    assert_eq!(t.ndk_llvm_triple(), "armv7a-linux-androideabi");
    assert_eq!(t.ndk_triple(), "arm-linux-androideabi");
    let t = AndroidBuildTarget::Arm64V8a;
    assert_eq!(t.android_abi(), "arm64-v8a");
    assert_eq!(t.rust_triple(), "aarch64-linux-android");
    assert_eq!(t.ndk_llvm_triple(), "aarch64-linux-android");
    assert_eq!(t.ndk_triple(), "aarch64-linux-android");
    let t = AndroidBuildTarget::X86;
    assert_eq!(t.android_abi(), "x86");
    assert_eq!(t.rust_triple(), "i686-linux-android");
    assert_eq!(t.ndk_llvm_triple(), "i686-linux-android");
    assert_eq!(t.ndk_triple(), "i686-linux-android");
    let t = AndroidBuildTarget::X86_64;
    assert_eq!(t.android_abi(), "x86_64");
    assert_eq!(t.rust_triple(), "x86_64-linux-android");
    assert_eq!(t.ndk_llvm_triple(), "x86_64-linux-android");
    assert_eq!(t.ndk_triple(), "x86_64-linux-android");
}
