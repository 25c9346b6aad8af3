//! The initramfs generator's configuration.
//!
//! Hardware auto-detection is deliberately absent from the hook list:
//! a portable image boots on different hardware than it was built on.

use vstd::prelude::*;

verus! {

/// What the generated configuration must provide hooks for.
#[derive(Debug, Clone, Copy)]
pub struct Initcpio {
    encrypted: bool,
    plymouth: bool,
}

/// The configuration text for the given options: the fixed preamble and
/// hook list, an `encrypt` hook when the root is encrypted, the splash
/// hooks when the splash tool is present, then the closing hooks.
pub open spec fn spec_initcpio_config(encrypted: bool, plymouth: bool) -> Seq<char> {
    "MODULES=()\nBINARIES=()\nFILES=()\nHOOKS=(base udev keyboard microcode modconf keymap consolefont block "@
        + (if encrypted {
        "encrypt "@
    } else {
        Seq::<char>::empty()
    }) + (if plymouth {
        "kms plymouth"@
    } else {
        Seq::<char>::empty()
    }) + "filesystems fsck)\n"@
}

impl Initcpio {
    /// Records which optional hooks the configuration needs.
    pub fn new(encrypted: bool, plymouth: bool) -> (r: Initcpio)
        ensures
            r.spec_encrypted() == encrypted,
            r.spec_plymouth() == plymouth,
    {
        Initcpio { encrypted, plymouth }
    }

    /// Whether the root filesystem is encrypted.
    pub closed spec fn spec_encrypted(&self) -> bool {
        self.encrypted
    }

    /// Whether the splash screen hooks are wanted.
    pub closed spec fn spec_plymouth(&self) -> bool {
        self.plymouth
    }

    /// Writes the configuration text.
    pub fn to_config(&self) -> (r: String)
        ensures
            r@ == spec_initcpio_config(self.spec_encrypted(), self.spec_plymouth()),
    {
        let mut out =
            "MODULES=()\nBINARIES=()\nFILES=()\nHOOKS=(base udev keyboard microcode modconf keymap consolefont block ".to_owned();
        if self.encrypted {
            out.append("encrypt ");
        }
        if self.plymouth {
            out.append("kms plymouth");
        }
        out.append("filesystems fsck)\n");
        out
    }
}

} // verus!
