//! Text labels that stand in for application icons.

use vstd::prelude::*;
use crate::text::{
    chars_of, contains_seq, find, find_from, lemma_find_from, occurs_at, string_from, string_of, trim_chars,
    trimmed,
};

verus! {

/// The lower-case form of a string, as `str::to_lowercase` gives it
/// (Unicode's lower-case mapping, which may change the length).
pub uninterp spec fn lowercase(s: Seq<char>) -> Seq<char>;

/// `str::to_lowercase` from std. Trusted: the result is `lowercase(s)`.
#[verifier::external_body]
pub(crate) fn to_lowercase(s: &str) -> (r: String)
    ensures
        r@ == lowercase(s@),
{
    s.to_lowercase()
}

/// The labels of well-known applications, by lower-case name.
pub open spec fn default_label_table() -> Seq<(Seq<char>, Seq<char>)> {
    seq![
        ("code"@, "VS"@),
        ("visual studio code"@, "VS"@),
        ("vscode"@, "VS"@),
        ("firefox"@, "FF"@),
        ("chrome"@, "CH"@),
        ("chromium"@, "CR"@),
        ("brave"@, "BR"@),
        ("microsoft-edge"@, "ED"@),
        ("edge"@, "ED"@),
        ("terminal"@, ">_"@),
        ("konsole"@, ">_"@),
        ("alacritty"@, ">_"@),
        ("kitty"@, ">_"@),
        ("wezterm"@, ">_"@),
        ("discord"@, "DC"@),
        ("slack"@, "SL"@),
        ("telegram"@, "TG"@),
        ("wechat"@, "WX"@),
        ("feishu"@, "FS"@),
        ("bytedance-feishu"@, "FS"@),
        ("spotify"@, "SP"@),
        ("nautilus"@, "FM"@),
        ("dolphin"@, "FM"@),
        ("thunar"@, "FM"@),
        ("steam"@, "ST"@),
        ("obs"@, "OB"@),
        ("obs studio"@, "OB"@),
        ("gimp"@, "GP"@),
        ("inkscape"@, "IK"@),
        ("krita"@, "KR"@),
        ("blender"@, "BL"@),
        ("libreoffice"@, "LO"@),
        ("thunderbird"@, "TB"@),
        ("evolution"@, "EV"@),
        ("vlc"@, "VL"@),
        ("mpv"@, "MP"@),
        ("zathura"@, "ZA"@),
        ("evince"@, "EV"@),
        ("okular"@, "OK"@),
        ("neovim"@, "NV"@),
        ("nvim"@, "NV"@),
        ("vim"@, "VI"@),
        ("emacs"@, "EM"@),
        ("jetbrains"@, "JB"@),
        ("idea"@, "IJ"@),
        ("pycharm"@, "PC"@),
        ("webstorm"@, "WS"@),
        ("clion"@, "CL"@),
        ("goland"@, "GO"@),
        ("zed"@, "ZD"@),
        ("dev.zed.zed"@, "ZD"@)
    ]
}

/// The label of the first entry with key `key`, if any.
pub open spec fn exact_label(t: Seq<(Seq<char>, Seq<char>)>, key: Seq<char>) -> Option<Seq<char>> {
    if exists|i: int| 0 <= i < t.len() && #[trigger] t[i].0 == key {
        let i = choose|i: int| 0 <= i < t.len() && #[trigger] t[i].0 == key;
        Some(t[i].1)
    } else {
        None
    }
}

/// Whether entry `i` matches `name` partially: one contains the other.
pub open spec fn partial_match(t: Seq<(Seq<char>, Seq<char>)>, i: int, name: Seq<char>) -> bool {
    contains_seq(name, t[i].0) || contains_seq(t[i].0, name)
}

/// Text labels for applications without an icon.
pub struct IconCache {
    default_labels: Vec<(String, &'static str)>,
}

/// Whether `s` occurs in `t`.
fn contains_chars(t: &[char], s: &[char]) -> (b: bool)
    ensures
        b == contains_seq(t@, s@),
{
    proof {
        lemma_find_from(t@, s@, 0);
    }
    match find(t, s, 0) {
        Some(_) => true,
        None => {
            assert forall|i: int| !occurs_at(t@, s@, i) by {
                if i < 0 {
                }
            }
            false
        },
    }
}

impl IconCache {
    /// The labels, as `(lower-case name, label)`.
    pub closed spec fn labels(&self) -> Seq<(Seq<char>, Seq<char>)> {
        self.default_labels@.map_values(|e: (String, &'static str)| (e.0@, e.1@))
    }

    /// A cache with the labels of well-known applications.
    pub fn new() -> (c: Self)
        ensures
            c.labels() == default_label_table(),
    {
        let mut labels: Vec<(String, &'static str)> = Vec::new();
        labels.push((string_of("code"), "VS"));
        labels.push((string_of("visual studio code"), "VS"));
        labels.push((string_of("vscode"), "VS"));
        labels.push((string_of("firefox"), "FF"));
        labels.push((string_of("chrome"), "CH"));
        labels.push((string_of("chromium"), "CR"));
        labels.push((string_of("brave"), "BR"));
        labels.push((string_of("microsoft-edge"), "ED"));
        labels.push((string_of("edge"), "ED"));
        labels.push((string_of("terminal"), ">_"));
        labels.push((string_of("konsole"), ">_"));
        labels.push((string_of("alacritty"), ">_"));
        labels.push((string_of("kitty"), ">_"));
        labels.push((string_of("wezterm"), ">_"));
        labels.push((string_of("discord"), "DC"));
        labels.push((string_of("slack"), "SL"));
        labels.push((string_of("telegram"), "TG"));
        labels.push((string_of("wechat"), "WX"));
        labels.push((string_of("feishu"), "FS"));
        labels.push((string_of("bytedance-feishu"), "FS"));
        labels.push((string_of("spotify"), "SP"));
        labels.push((string_of("nautilus"), "FM"));
        labels.push((string_of("dolphin"), "FM"));
        labels.push((string_of("thunar"), "FM"));
        labels.push((string_of("steam"), "ST"));
        labels.push((string_of("obs"), "OB"));
        labels.push((string_of("obs studio"), "OB"));
        labels.push((string_of("gimp"), "GP"));
        labels.push((string_of("inkscape"), "IK"));
        labels.push((string_of("krita"), "KR"));
        labels.push((string_of("blender"), "BL"));
        labels.push((string_of("libreoffice"), "LO"));
        labels.push((string_of("thunderbird"), "TB"));
        labels.push((string_of("evolution"), "EV"));
        labels.push((string_of("vlc"), "VL"));
        labels.push((string_of("mpv"), "MP"));
        labels.push((string_of("zathura"), "ZA"));
        labels.push((string_of("evince"), "EV"));
        labels.push((string_of("okular"), "OK"));
        labels.push((string_of("neovim"), "NV"));
        labels.push((string_of("nvim"), "NV"));
        labels.push((string_of("vim"), "VI"));
        labels.push((string_of("emacs"), "EM"));
        labels.push((string_of("jetbrains"), "JB"));
        labels.push((string_of("idea"), "IJ"));
        labels.push((string_of("pycharm"), "PC"));
        labels.push((string_of("webstorm"), "WS"));
        labels.push((string_of("clion"), "CL"));
        labels.push((string_of("goland"), "GO"));
        labels.push((string_of("zed"), "ZD"));
        labels.push((string_of("dev.zed.zed"), "ZD"));
        let c = IconCache { default_labels: labels };
        assert(c.labels() =~= default_label_table());
        c
    }

    /// The label for an application: that of its lower-case name; else that of
    /// some well-known name it contains or is contained in (which one, when
    /// several are, is not fixed); else `AP`.
    pub fn get_emoji(&self, app_name: &str) -> (r: &'static str)
        ensures
            ({
                let t = self.labels();
                let n = lowercase(app_name@);
                if exact_label(t, n) is Some {
                    exists|i: int| 0 <= i < t.len() && t[i].0 == n && #[trigger] t[i].1 == r@
                } else if exists|i: int| 0 <= i < t.len() && #[trigger] partial_match(t, i, n) {
                    exists|i: int| 0 <= i < t.len() && #[trigger] partial_match(t, i, n) && t[i].1 == r@
                } else {
                    r@ == "AP"@
                }
            }),
    {
        let ghost t = self.labels();
        let name_lower = to_lowercase(app_name);
        let n = self.default_labels.len();
        let mut i: usize = 0;
        while i < n
            invariant
                n == self.default_labels@.len(),
                t == self.labels(),
                t.len() == n,
                name_lower@ == lowercase(app_name@),
                i <= n,
                forall|k: int| 0 <= k < i ==> #[trigger] t[k].0 != name_lower@,
            decreases n - i,
        {
            assert(t[i as int] == (self.default_labels@[i as int].0@, self.default_labels@[i as int].1@));
            if self.default_labels[i].0 == name_lower {
                let r = self.default_labels[i].1;
                assert(t[i as int].0 == name_lower@ && t[i as int].1 == r@);
                return r;
            }
            i = i + 1;
        }
        let name_chars = chars_of(name_lower.as_str());
        let mut j: usize = 0;
        while j < n
            invariant
                n == self.default_labels@.len(),
                t == self.labels(),
                t.len() == n,
                name_lower@ == lowercase(app_name@),
                j <= n,
                name_chars@ == name_lower@,
                forall|k: int| 0 <= k < n ==> #[trigger] t[k].0 != name_lower@,
                forall|k: int| 0 <= k < j ==> !#[trigger] partial_match(t, k, name_lower@),
            decreases n - j,
        {
            assert(t[j as int] == (self.default_labels@[j as int].0@, self.default_labels@[j as int].1@));
            let key = chars_of(self.default_labels[j].0.as_str());
            if contains_chars(name_chars.as_slice(), key.as_slice()) || contains_chars(
                key.as_slice(),
                name_chars.as_slice(),
            ) {
                let r = self.default_labels[j].1;
                assert(partial_match(t, j as int, name_lower@) && t[j as int].1 == r@);
                assert(exact_label(t, name_lower@) is None);
                return r;
            }
            j = j + 1;
        }
        assert(exact_label(t, name_lower@) is None);
        "AP"
    }
}

impl Default for IconCache {
    fn default() -> (c: Self)
        ensures
            c.labels() == default_label_table(),
    {
        Self::new()
    }
}

/// The icon a desktop entry names: the rest of its first line that, trimmed
/// of white space, starts with `Icon=` (lines end at line feeds).
pub open spec fn desktop_icon(s: Seq<char>) -> Option<Seq<char>>
    decreases s.len(),
{
    let k = find_from(s, seq!['\n'], 0);
    let line = match k {
        Some(j) => s.take(j),
        None => s,
    };
    let t = trimmed(line);
    if t.len() >= 5 && t.take(5) == "Icon="@ {
        Some(t.skip(5))
    } else {
        match k {
            Some(j) => if 0 <= j < s.len() {
                desktop_icon(s.skip(j + 1))
            } else {
                None
            },
            None => None,
        }
    }
}

/// The icon a desktop entry's text names, if any.
pub fn icon_name_from_desktop_entry(content: &str) -> (r: Option<String>)
    ensures
        match r {
            Some(name) => desktop_icon(content@) == Some(name@),
            None => desktop_icon(content@) is None,
        },
{
    let v = chars_of(content);
    let nl = vec!['\n'];
    let key = vec!['I', 'c', 'o', 'n', '='];
    proof {
        reveal_strlit("Icon=");
        assert(key@ =~= "Icon="@);
        assert(v@.skip(0) =~= v@);
    }
    let mut start: usize = 0;
    while start <= v.len()
        invariant
            start <= v@.len() + 1,
            nl@ == seq!['\n'],
            key@ == "Icon="@,
            start <= v@.len() ==> desktop_icon(content@) == desktop_icon(v@.skip(start as int)),
            start > v@.len() ==> desktop_icon(content@) is None,
            v@ == content@,
        decreases v@.len() + 1 - start,
    {
        let ghost rest = v@.skip(start as int);
        let found = find(v.as_slice(), nl.as_slice(), start);
        proof {
            crate::ipc::lemma_find_shift(v@, seq!['\n'], start as int);
            lemma_find_from(v@, seq!['\n'], start as int);
        }
        let end = match found {
            Some(j) => j,
            None => v.len(),
        };
        let line = string_from(v.as_slice(), start, end);
        let lv = chars_of(line.as_str());
        let t = trim_chars(lv.as_slice());
        proof {
            match found {
                Some(j) => {
                    assert(rest.take(j - start) =~= v@.subrange(start as int, j as int));
                },
                None => {
                    assert(rest =~= v@.subrange(start as int, v@.len() as int));
                },
            }
        }
        if t.len() >= 5 && crate::text::range_eq(t.as_slice(), 0, 5, key.as_slice()) {
            assert(t@.subrange(0, 5) =~= t@.take(5));
            let name = string_from(t.as_slice(), 5, t.len());
            assert(t@.subrange(5, t@.len() as int) =~= t@.skip(5));
            return Some(name);
        }
        assert(t@.len() < 5 || t@.subrange(0, 5) != key@);
        assert(t@.len() >= 5 ==> t@.subrange(0, 5) =~= t@.take(5));
        match found {
            Some(j) => {
                proof {
                    assert(rest.skip(j - start + 1) =~= v@.skip(j + 1));
                }
                start = j + 1;
            },
            None => {
                return None;
            },
        }
    }
    None
}

} // verus!
