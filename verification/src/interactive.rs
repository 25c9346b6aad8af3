//! The settings an interactive setup collects, and what the library
//! computes from them: username validation, the package selections'
//! meaning, and the setup script applied inside the new system.
//!
//! The prompting itself is an external collaborator; the library only
//! ever sees the collected plain values.

use vstd::prelude::*;

verus! {

/// Everything the interactive setup collects.
#[derive(Debug, Clone)]
pub struct UserSettings {
    pub username: String,
    pub hostname: String,
    pub user_password: Option<String>,
    pub passwordless_sudo: bool,
    pub timezone: String,
    pub graphics_packages: Vec<String>,
    pub font_packages: Vec<String>,
}

/// Whether `c` may appear in a username: a lowercase ASCII letter or an
/// underscore.
pub open spec fn is_username_char(c: char) -> bool {
    (97 <= c as u32 && c as u32 <= 122) || c == '_'
}

/// A valid username is non-empty, at most 32 characters, and made of
/// lowercase letters and underscores only.
pub open spec fn spec_valid_username(s: Seq<char>) -> bool {
    s.len() > 0 && s.len() <= 32 && forall|i: int|
        0 <= i < s.len() ==> is_username_char(#[trigger] s[i])
}

/// Checks a username against the rule above.
pub fn validate_username(input: &str) -> (r: bool)
    ensures
        r == spec_valid_username(input@),
{
    let n = input.unicode_len();
    if n == 0 || n > 32 {
        return false;
    }
    let mut i: usize = 0;
    while i < n
        invariant
            n == input@.len(),
            0 < n <= 32,
            0 <= i <= n,
            forall|k: int| 0 <= k < i ==> is_username_char(#[trigger] input@[k]),
        decreases n - i,
    {
        let c = input.get_char(i);
        let u = c as u32;
        if !((97 <= u && u <= 122) || c == '_') {
            proof {
                assert(!is_username_char(input@[i as int]));
            }
            return false;
        }
        i = i + 1;
    }
    true
}

/// The setup script the collected settings stand for: hostname,
/// timezone, the user with their password and sudo policy, and the
/// user-directory refresh.
pub open spec fn spec_setup_script(u: UserSettings) -> Seq<char> {
    "set -eux\n"@ + "echo "@ + u.hostname@ + " > /etc/hostname\n"@
        + "ln -sf /usr/share/zoneinfo/"@ + u.timezone@ + " /etc/localtime\n"@
        + "useradd -m -G wheel "@ + u.username@ + " || echo \"User "@ + u.username@
        + " already exists\"\n"@ + (match u.user_password {
        Some(p) => "echo \""@ + u.username@ + ":"@ + p@ + "\" | chpasswd\n"@,
        None => Seq::<char>::empty(),
    }) + (if u.passwordless_sudo {
        "echo '%wheel ALL=(ALL) NOPASSWD: ALL' > /etc/sudoers.d/wheel\n"@
    } else {
        "echo '%wheel ALL=(ALL) ALL' > /etc/sudoers.d/wheel\n"@
    }) + "sudo -u "@ + u.username@ + " xdg-user-dirs-update || true\n"@
}

impl UserSettings {
    /// Writes the setup script these settings stand for, to be run
    /// inside the new system.
    pub fn generate_setup_script(&self) -> (r: String)
        ensures
            r@ == spec_setup_script(*self),
    {
        let mut script = "set -eux\n".to_owned();
        script.append("echo ");
        script.append(self.hostname.as_str());
        script.append(" > /etc/hostname\n");
        script.append("ln -sf /usr/share/zoneinfo/");
        script.append(self.timezone.as_str());
        script.append(" /etc/localtime\n");
        script.append("useradd -m -G wheel ");
        script.append(self.username.as_str());
        script.append(" || echo \"User ");
        script.append(self.username.as_str());
        script.append(" already exists\"\n");
        match &self.user_password {
            Some(password) => {
                script.append("echo \"");
                script.append(self.username.as_str());
                script.append(":");
                script.append(password.as_str());
                script.append("\" | chpasswd\n");
            },
            None => {},
        }
        if self.passwordless_sudo {
            script.append("echo '%wheel ALL=(ALL) NOPASSWD: ALL' > /etc/sudoers.d/wheel\n");
        } else {
            script.append("echo '%wheel ALL=(ALL) ALL' > /etc/sudoers.d/wheel\n");
        }
        script.append("sudo -u ");
        script.append(self.username.as_str());
        script.append(" xdg-user-dirs-update || true\n");
        script
    }
}

/// The graphics packages the selectable groups stand for, by group
/// index.
pub open spec fn spec_video_group(i: int) -> Seq<Seq<char>> {
    if i == 0 {
        seq!["mesa"@]
    } else if i == 1 {
        seq!["nvidia-dkms"@]
    } else if i == 2 {
        seq!["nvidia-open-dkms"@]
    } else if i == 3 {
        seq!["xf86-video-nouveau"@]
    } else {
        Seq::<Seq<char>>::empty()
    }
}

/// The graphics packages of one selectable group.
pub fn video_group(i: usize) -> (r: Vec<String>)
    ensures
        r.deep_view() == spec_video_group(i as int),
{
    let mut v: Vec<String> = Vec::new();
    if i == 0 {
        v.push("mesa".to_owned());
    } else if i == 1 {
        v.push("nvidia-dkms".to_owned());
    } else if i == 2 {
        v.push("nvidia-open-dkms".to_owned());
    } else if i == 3 {
        v.push("xf86-video-nouveau".to_owned());
    }
    proof {
        assert(v.deep_view() =~~= spec_video_group(i as int));
    }
    v
}

/// The font packages the selectable groups stand for, by group index.
pub open spec fn spec_font_group(i: int) -> Seq<Seq<char>> {
    if i == 0 {
        seq!["noto-fonts"@, "noto-fonts-extra"@, "noto-fonts-cjk"@, "noto-fonts-emoji"@]
    } else if i == 1 {
        seq!["ttf-liberation"@]
    } else if i == 2 {
        seq!["ttf-dejavu"@]
    } else if i == 3 {
        seq!["nerd-fonts-complete"@]
    } else if i == 4 {
        seq!["ttf-ibm-plex"@]
    } else {
        Seq::<Seq<char>>::empty()
    }
}

/// The font packages of one selectable group.
pub fn font_group(i: usize) -> (r: Vec<String>)
    ensures
        r.deep_view() == spec_font_group(i as int),
{
    let mut v: Vec<String> = Vec::new();
    if i == 0 {
        v.push("noto-fonts".to_owned());
        v.push("noto-fonts-extra".to_owned());
        v.push("noto-fonts-cjk".to_owned());
        v.push("noto-fonts-emoji".to_owned());
    } else if i == 1 {
        v.push("ttf-liberation".to_owned());
    } else if i == 2 {
        v.push("ttf-dejavu".to_owned());
    } else if i == 3 {
        v.push("nerd-fonts-complete".to_owned());
    } else if i == 4 {
        v.push("ttf-ibm-plex".to_owned());
    }
    proof {
        assert(v.deep_view() =~~= spec_font_group(i as int));
    }
    v
}

/// The graphics packages a list of selected group indexes stands for,
/// in selection order.
pub open spec fn spec_video_selection(sel: Seq<usize>) -> Seq<Seq<char>>
    decreases sel.len(),
{
    if sel.len() == 0 {
        Seq::<Seq<char>>::empty()
    } else {
        spec_video_selection(sel.drop_last()) + spec_video_group(sel.last() as int)
    }
}

/// Whether a selection includes either proprietary-driver group, which
/// pulls the driver utilities in as well.
pub open spec fn spec_has_nvidia(sel: Seq<usize>) -> bool {
    exists|i: int| 0 <= i < sel.len() && ((#[trigger] sel[i]) == 1 || sel[i] == 2)
}

/// Resolves a graphics selection to its packages, adding the driver
/// utilities when either proprietary-driver group was chosen.
pub fn selected_video_packages(selections: &Vec<usize>) -> (r: Vec<String>)
    ensures
        r.deep_view() == spec_video_selection(selections@) + (if spec_has_nvidia(selections@) {
            seq!["nvidia-utils"@]
        } else {
            Seq::<Seq<char>>::empty()
        }),
{
    let mut out: Vec<String> = Vec::new();
    let mut nvidia = false;
    let total = selections.len();
    let mut i: usize = 0;
    proof {
        assert(out.deep_view() =~= spec_video_selection(selections@.take(0)));
    }
    while i < total
        invariant
            total == selections@.len(),
            0 <= i <= total,
            out.deep_view() == spec_video_selection(selections@.take(i as int)),
            nvidia == spec_has_nvidia(selections@.take(i as int)),
        decreases total - i,
    {
        let s = selections[i];
        let mut g = video_group(s);
        let ghost odv = out.deep_view();
        out.append(&mut g);
        if s == 1 || s == 2 {
            nvidia = true;
        }
        proof {
            let pre = selections@.take(i as int);
            let cur = selections@.take(i + 1);
            assert(cur.drop_last() =~= pre);
            assert(cur.last() == selections@[i as int]);
            assert(out.deep_view() =~~= odv + spec_video_group(selections@[i as int] as int));
            if selections@[i as int] == 1 || selections@[i as int] == 2 {
                assert(spec_has_nvidia(cur)) by {
                    assert(cur[i as int] == selections@[i as int]);
                }
            } else {
                assert(spec_has_nvidia(cur) == spec_has_nvidia(pre)) by {
                    if spec_has_nvidia(cur) {
                        let w = choose|w: int|
                            0 <= w < cur.len() && ((#[trigger] cur[w]) == 1 || cur[w] == 2);
                        if w < i {
                            assert(pre[w] == cur[w]);
                        }
                    }
                    if spec_has_nvidia(pre) {
                        let w = choose|w: int|
                            0 <= w < pre.len() && ((#[trigger] pre[w]) == 1 || pre[w] == 2);
                        assert(cur[w] == pre[w]);
                    }
                }
            }
        }
        i = i + 1;
    }
    proof {
        assert(selections@.take(total as int) =~= selections@);
    }
    if nvidia {
        let ghost odv = out.deep_view();
        out.push("nvidia-utils".to_owned());
        proof {
            assert(out.deep_view() =~~= odv + seq!["nvidia-utils"@]);
        }
    } else {
        proof {
            assert(out.deep_view() =~~= out.deep_view() + Seq::<Seq<char>>::empty());
        }
    }
    out
}

/// The font packages a list of selected group indexes stands for, in
/// selection order.
pub open spec fn spec_font_selection(sel: Seq<usize>) -> Seq<Seq<char>>
    decreases sel.len(),
{
    if sel.len() == 0 {
        Seq::<Seq<char>>::empty()
    } else {
        spec_font_selection(sel.drop_last()) + spec_font_group(sel.last() as int)
    }
}

/// Resolves a font selection to its packages.
pub fn selected_font_packages(selections: &Vec<usize>) -> (r: Vec<String>)
    ensures
        r.deep_view() == spec_font_selection(selections@),
{
    let mut out: Vec<String> = Vec::new();
    let total = selections.len();
    let mut i: usize = 0;
    proof {
        assert(out.deep_view() =~= spec_font_selection(selections@.take(0)));
    }
    while i < total
        invariant
            total == selections@.len(),
            0 <= i <= total,
            out.deep_view() == spec_font_selection(selections@.take(i as int)),
        decreases total - i,
    {
        let s = selections[i];
        let mut g = font_group(s);
        let ghost odv = out.deep_view();
        out.append(&mut g);
        proof {
            let pre = selections@.take(i as int);
            let cur = selections@.take(i + 1);
            assert(cur.drop_last() =~= pre);
            assert(cur.last() == selections@[i as int]);
            assert(out.deep_view() =~~= odv + spec_font_group(selections@[i as int] as int));
        }
        i = i + 1;
    }
    proof {
        assert(selections@.take(total as int) =~= selections@);
    }
    out
}

} // verus!
