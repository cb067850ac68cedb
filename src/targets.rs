use vstd::prelude::*;

verus! {

/// An Android ABI that a native library can be built for.
#[derive(Clone, Copy, Debug, PartialEq, Eq, Structural)]
#[allow(non_camel_case_types)]
pub enum AndroidBuildTarget {
    ArmV7a,
    Arm64V8a,
    X86,
    X86_64,
}

impl AndroidBuildTarget {
    /// The name under which the NDK knows the ABI.
    pub open spec fn abi_spec(self) -> Seq<char> {
        match self {
            AndroidBuildTarget::ArmV7a => "armeabi-v7a"@,
            AndroidBuildTarget::Arm64V8a => "arm64-v8a"@,
            AndroidBuildTarget::X86 => "x86"@,
            AndroidBuildTarget::X86_64 => "x86_64"@,
        }
    }

    /// The target triple of the Rust toolchain.
    pub open spec fn rust_triple_spec(self) -> Seq<char> {
        match self {
            AndroidBuildTarget::ArmV7a => "armv7-linux-androideabi"@,
            AndroidBuildTarget::Arm64V8a => "aarch64-linux-android"@,
            AndroidBuildTarget::X86 => "i686-linux-android"@,
            AndroidBuildTarget::X86_64 => "x86_64-linux-android"@,
        }
    }

    /// The target triple of the LLVM toolchain shipped with the NDK.
    pub open spec fn ndk_llvm_triple_spec(self) -> Seq<char> {
        match self {
            AndroidBuildTarget::ArmV7a => "armv7a-linux-androideabi"@,
            AndroidBuildTarget::Arm64V8a => "aarch64-linux-android"@,
            AndroidBuildTarget::X86 => "i686-linux-android"@,
            AndroidBuildTarget::X86_64 => "x86_64-linux-android"@,
        }
    }

    /// The target triple of the binutils shipped with the NDK.
    pub open spec fn ndk_triple_spec(self) -> Seq<char> {
        match self {
            AndroidBuildTarget::ArmV7a => "arm-linux-androideabi"@,
            AndroidBuildTarget::Arm64V8a => "aarch64-linux-android"@,
            AndroidBuildTarget::X86 => "i686-linux-android"@,
            AndroidBuildTarget::X86_64 => "x86_64-linux-android"@,
        }
    }

    /// Identifier used in the NDK to refer to the ABI.
    pub fn android_abi(self) -> (r: &'static str)
        ensures
            r@ == self.abi_spec(),
    {
        match self {
            AndroidBuildTarget::ArmV7a => "armeabi-v7a",
            AndroidBuildTarget::Arm64V8a => "arm64-v8a",
            AndroidBuildTarget::X86 => "x86",
            AndroidBuildTarget::X86_64 => "x86_64",
        }
    }

    /// Triple used by the Rust build tools.
    pub fn rust_triple(self) -> (r: &'static str)
        ensures
            r@ == self.rust_triple_spec(),
    {
        match self {
            AndroidBuildTarget::ArmV7a => "armv7-linux-androideabi",
            AndroidBuildTarget::Arm64V8a => "aarch64-linux-android",
            AndroidBuildTarget::X86 => "i686-linux-android",
            AndroidBuildTarget::X86_64 => "x86_64-linux-android",
        }
    }

    /// Triple used by the LLVM toolchain of the NDK.
    pub fn ndk_llvm_triple(self) -> (r: &'static str)
        ensures
            r@ == self.ndk_llvm_triple_spec(),
    {
        match self {
            AndroidBuildTarget::ArmV7a => "armv7a-linux-androideabi",
            AndroidBuildTarget::Arm64V8a => "aarch64-linux-android",
            AndroidBuildTarget::X86 => "i686-linux-android",
            AndroidBuildTarget::X86_64 => "x86_64-linux-android",
        }
    }

    /// Triple used by the non-LLVM parts of the NDK.
    pub fn ndk_triple(self) -> (r: &'static str)
        ensures
            r@ == self.ndk_triple_spec(),
    {
        match self {
            AndroidBuildTarget::ArmV7a => "arm-linux-androideabi",
            AndroidBuildTarget::Arm64V8a => "aarch64-linux-android",
            AndroidBuildTarget::X86 => "i686-linux-android",
            AndroidBuildTarget::X86_64 => "x86_64-linux-android",
        }
    }
}

} // verus!
