//! The helpers that build packages from the user repository, and the
//! exact command lines they are driven with.

use vstd::prelude::*;

use crate::error::AlmaError;
use crate::text;

verus! {

/// The supported helpers.
#[derive(Debug, Clone, Copy, PartialEq, Eq, Structural)]
pub enum AurHelper {
    Paru,
    Yay,
}

impl AurHelper {
    /// The helper's own name.
    pub open spec fn spec_name(self) -> Seq<char> {
        match self {
            AurHelper::Paru => "paru"@,
            AurHelper::Yay => "yay"@,
        }
    }

    /// The helper's own name.
    pub fn name(&self) -> (r: &'static str)
        ensures
            r@ == self.spec_name(),
    {
        match self {
            AurHelper::Paru => "paru",
            AurHelper::Yay => "yay",
        }
    }

    /// The package that installs the helper.
    pub open spec fn spec_package_name(self) -> Seq<char> {
        match self {
            AurHelper::Paru => "paru-bin"@,
            AurHelper::Yay => "yay-bin"@,
        }
    }

    /// The package that installs the helper.
    pub fn get_package_name(&self) -> (r: String)
        ensures
            r@ == self.spec_package_name(),
    {
        match self {
            AurHelper::Paru => "paru-bin".to_owned(),
            AurHelper::Yay => "yay-bin".to_owned(),
        }
    }

    /// The full non-interactive install invocation of the helper.
    pub open spec fn spec_install_command(self) -> Seq<Seq<char>> {
        match self {
            AurHelper::Paru => seq![
                "paru"@,
                "-S"@,
                "--skipreview"@,
                "--noupgrademenu"@,
                "--useask"@,
                "--removemake"@,
                "--norebuild"@,
                "--nocleanafter"@,
                "--noredownload"@,
                "--mflags"@,
                ""@,
                "--noconfirm"@,
                "--batchinstall"@,
            ],
            AurHelper::Yay => seq![
                "yay"@,
                "-S"@,
                "--useask"@,
                "--removemake"@,
                "--norebuild"@,
                "--answeredit"@,
                "None"@,
                "--answerclean"@,
                "None"@,
                "--answerdiff"@,
                "None"@,
                "--mflags"@,
                "--noconfirm"@,
            ],
        }
    }

    /// The full non-interactive install invocation of the helper.
    pub fn get_install_command(&self) -> (r: Vec<String>)
        ensures
            r.deep_view() == self.spec_install_command(),
    {
        let mut v: Vec<String> = Vec::new();
        match self {
            AurHelper::Paru => {
                v.push("paru".to_owned());
                v.push("-S".to_owned());
                v.push("--skipreview".to_owned());
                v.push("--noupgrademenu".to_owned());
                v.push("--useask".to_owned());
                v.push("--removemake".to_owned());
                v.push("--norebuild".to_owned());
                v.push("--nocleanafter".to_owned());
                v.push("--noredownload".to_owned());
                v.push("--mflags".to_owned());
                v.push("".to_owned());
                v.push("--noconfirm".to_owned());
                v.push("--batchinstall".to_owned());
            },
            AurHelper::Yay => {
                v.push("yay".to_owned());
                v.push("-S".to_owned());
                v.push("--useask".to_owned());
                v.push("--removemake".to_owned());
                v.push("--norebuild".to_owned());
                v.push("--answeredit".to_owned());
                v.push("None".to_owned());
                v.push("--answerclean".to_owned());
                v.push("None".to_owned());
                v.push("--answerdiff".to_owned());
                v.push("None".to_owned());
                v.push("--mflags".to_owned());
                v.push("--noconfirm".to_owned());
            },
        }
        proof {
            assert(v.deep_view() =~~= self.spec_install_command());
        }
        v
    }

    /// Parses a helper's name; anything but the two known names is
    /// rejected.
    pub fn from_name(s: &str) -> (r: Result<AurHelper, AlmaError>)
        ensures
            s@ == "paru"@ ==> r == Result::<AurHelper, AlmaError>::Ok(AurHelper::Paru),
            s@ == "yay"@ ==> r == Result::<AurHelper, AlmaError>::Ok(AurHelper::Yay),
            s@ != "paru"@ && s@ != "yay"@ ==> (r matches Err(e) && e
                matches AlmaError::Unsupported { .. }),
    {
        proof {
            reveal_strlit("paru");
            reveal_strlit("yay");
            assert("paru"@.len() == 4);
            assert("yay"@.len() == 3);
            assert("paru"@ != "yay"@);
        }
        if text::eq_str(s, "paru") {
            Ok(AurHelper::Paru)
        } else if text::eq_str(s, "yay") {
            Ok(AurHelper::Yay)
        } else {
            let mut message = "Error parsing AUR helper string: ".to_owned();
            message.append(s);
            Err(AlmaError::Unsupported { message })
        }
    }
}

} // verus!
