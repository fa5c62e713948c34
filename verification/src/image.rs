//! The bootable image: where its files go and how the image tool is called.

use crate::text::texts;
use vstd::prelude::*;

verus! {

/// The tool that makes the ISO image.
pub const IMAGE_TOOL: &'static str = "grub-mkrescue";

/// The directory, below the target directory, that holds the image's files.
pub const SYSROOT_DIR: &'static str = "sysroot";

/// The image, below the target directory.
pub const IMAGE_FILE: &'static str = "os.iso";

/// The directory of the boot loader's files, below the sysroot.
pub const GRUB_DIR: &'static str = "boot/grub";

/// The kernel, below the sysroot.
pub const KERNEL_FILE: &'static str = "boot/kernel.bin";

/// The boot loader's configuration file, in its directory.
pub const GRUB_CONFIG_FILE: &'static str = "grub.cfg";

/// The boot loader's configuration: boot the kernel at once, by multiboot2.
pub const GRUB_CONFIG: &'static str =
    "set timeout=0\nset default=0\n\nmenuentry \"My OS\" {\n \tmultiboot2 /boot/kernel.bin\n\tboot\n}";

/// The arguments with which the image tool writes the image of a sysroot.
pub fn image_tool_args(image: &str, sysroot: &str) -> (args: Vec<String>)
    ensures
        texts(args@) == seq!["-o"@, image@, sysroot@],
{
    let mut args: Vec<String> = Vec::new();
    args.push("-o".to_owned());
    args.push(image.to_owned());
    args.push(sysroot.to_owned());
    assert(texts(args@) =~= seq!["-o"@, image@, sysroot@]);
    args
}

} // verus!
