//! Settings of the plugin and playback parameters of one window.
//!
//! The global values come from the configuration; a window rule may override the file, the
//! speed and the loop. The decoding backend and the GPU are global only: they belong to the
//! machine, not to the window. Speeds are given by the bits of a double.

use crate::double;
use crate::path::{join, same_path};
use crate::text::{chars_of, same, to_lower, trim};
use vstd::prelude::*;
use vstd::string::*;

verus! {

/// Where video is decoded.
#[derive(Debug, Clone, Copy, PartialEq, Eq, Structural)]
pub enum Backend {
    /// The GPU if there is one and it knows the codec, else the CPU.
    Auto,
    /// Only the GPU. If that fails it is an error; there is no silent way back to the CPU.
    Gpu,
    /// Only the CPU.
    Cpu,
}

impl Default for Backend {
    fn default() -> (r: Backend)
        ensures
            r == Backend::Auto,
    {
        Backend::Auto
    }
}

/// The backend that a word of the configuration names. White space around it and the case of
/// its letters do not matter; no word at all means `Auto`.
pub open spec fn backend_named(raw: Seq<char>) -> Option<Backend> {
    let word = crate::text::lowered(crate::text::trimmed(raw));
    if word == ""@ || word == "auto"@ {
        Some(Backend::Auto)
    } else if word == "gpu"@ || word == "hw"@ || word == "hardware"@ {
        Some(Backend::Gpu)
    } else if word == "cpu"@ || word == "sw"@ || word == "software"@ {
        Some(Backend::Cpu)
    } else {
        None
    }
}

impl Backend {
    /// Reads a value of the configuration. An unknown word gives `None`, so that the caller
    /// can show an error.
    pub fn parse(raw: &str) -> (r: Option<Backend>)
        ensures
            r == backend_named(raw@),
    {
        let word = to_lower(trim(raw));
        let w = word.as_str();
        if same(w, "") || same(w, "auto") {
            Some(Backend::Auto)
        } else if same(w, "gpu") || same(w, "hw") || same(w, "hardware") {
            Some(Backend::Gpu)
        } else if same(w, "cpu") || same(w, "sw") || same(w, "software") {
            Some(Backend::Cpu)
        } else {
            None
        }
    }
}

/// Global settings, read and checked.
#[derive(Debug, Clone)]
pub struct Settings {
    /// The file shown in windows without a rule of their own.
    pub path_cover: String,
    pub looped: bool,
    /// Bits of the playback speed.
    pub speed: u64,
    pub backend: Backend,
    /// A render node (`/dev/dri/renderD129`). `None`: pick one.
    pub gpu_device: Option<String>,
}

/// Values as the configuration holds them.
#[derive(Debug, Clone)]
pub struct RawSettings<'a> {
    pub path_cover: &'a str,
    pub looped: bool,
    /// Bits of the playback speed.
    pub speed: u64,
    pub backend: &'a str,
    pub gpu_device: &'a str,
}

/// An error in the configuration: it is shown to the user, and the default is used.
#[derive(Debug, Clone, PartialEq, Eq)]
pub enum ConfigError {
    UnknownBackend(String),
}

impl ConfigError {
    /// The message.
    pub open spec fn message(&self) -> Seq<char> {
        match self {
            ConfigError::UnknownBackend(word) => "noshare-cover: неизвестный backend «"@ + word@
                + "», жду auto, gpu или cpu"@,
        }
    }

    /// The message for the user.
    pub fn text(&self) -> (r: String)
        ensures
            r@ == self.message(),
    {
        match self {
            ConfigError::UnknownBackend(word) => {
                let mut out = "noshare-cover: неизвестный backend «".to_owned();
                out.append(word.as_str());
                out.append("», жду auto, gpu или cpu");
                out
            },
        }
    }
}

/// A text, if there is one.
pub open spec fn text_of(s: Option<String>) -> Option<Seq<char>> {
    match s {
        Some(t) => Some(t@),
        None => None,
    }
}

/// The device that a value of the configuration names.
pub open spec fn device_named(raw: Seq<char>, home: Option<Seq<char>>) -> Option<Seq<char>> {
    let word = crate::text::trimmed(raw);
    if word == ""@ || word == "auto"@ {
        None
    } else {
        Some(home_expanded(word, home))
    }
}

/// A path of the configuration with its `~` expanded; `default` if it is blank.
pub open spec fn cover_named(raw: Seq<char>, home: Option<Seq<char>>, default: Seq<char>) -> Seq<
    char,
> {
    if crate::text::trimmed(raw).len() == 0 {
        default
    } else {
        home_expanded(crate::text::trimmed(raw), home)
    }
}

/// The text of an optional home directory.
pub open spec fn home_of(home: Option<&str>) -> Option<Seq<char>> {
    match home {
        Some(h) => Some(h@),
        None => None,
    }
}

impl Settings {
    /// The settings of a plugin without a configuration. `path` is the default file.
    pub fn defaults(path: String) -> (r: Settings)
        ensures
            r.path_cover == path,
            r.looped,
            r.speed == double::ONE,
            r.backend == Backend::Auto,
            r.gpu_device is None,
    {
        Settings {
            path_cover: path,
            looped: true,
            speed: double::ONE,
            backend: Backend::Auto,
            gpu_device: None,
        }
    }

    /// Reads and checks the values of the configuration. `home` is the home directory and
    /// `path` the default file. An unknown backend is reported and `Auto` is used in its
    /// place.
    pub fn from_raw(raw: &RawSettings<'_>, home: Option<&str>, path: &str) -> (r: (
        Settings,
        Option<ConfigError>,
    ))
        ensures
            r.0.path_cover@ == cover_named(raw.path_cover@, home_of(home), path@),
            r.0.looped == raw.looped,
            r.0.speed == sane_speed(raw.speed),
            text_of(r.0.gpu_device) == device_named(raw.gpu_device@, home_of(home)),
            match backend_named(raw.backend@) {
                Some(b) => r.0.backend == b && r.1 is None,
                None => r.0.backend == Backend::Auto && (r.1 matches Some(
                    ConfigError::UnknownBackend(word),
                ) && word@ == raw.backend@),
            },
    {
        let parsed = Backend::parse(raw.backend);
        let err = match parsed {
            Some(_) => None,
            None => Some(ConfigError::UnknownBackend(raw.backend.to_owned())),
        };
        let backend = match parsed {
            Some(b) => b,
            None => Backend::Auto,
        };
        let word = trim(raw.path_cover);
        let path_cover = if word.unicode_len() == 0 {
            path.to_owned()
        } else {
            expand_home(word, home)
        };
        let dev = trim(raw.gpu_device);
        let gpu_device = if same(dev, "") || same(dev, "auto") {
            None
        } else {
            Some(expand_home(dev, home))
        };
        let settings = Settings {
            path_cover,
            looped: raw.looped,
            speed: sanitize_speed(raw.speed),
            backend,
            gpu_device,
        };
        (settings, err)
    }

    /// The playback parameters of a window without a rule.
    pub open spec fn plays(&self) -> (Seq<char>, u64, bool) {
        (self.path_cover@, self.speed, self.looped)
    }

    /// What makes the parameters of a window without a rule the same as others.
    pub open spec fn key(&self) -> PlayKey {
        (crate::path::path_key(self.path_cover@), self.speed, self.looped)
    }

    /// The playback parameters of a window without a rule.
    pub fn default_play(&self) -> (r: PlayParams)
        ensures
            r@ == self.plays(),
    {
        PlayParams { path: self.path_cover.clone(), speed: self.speed, looped: self.looped }
    }

    /// The same settings once more.
    pub fn copy(&self) -> (r: Settings)
        ensures
            r.path_cover@ == self.path_cover@,
            r.looped == self.looped,
            r.speed == self.speed,
            r.backend == self.backend,
            text_of(r.gpu_device) == text_of(self.gpu_device),
    {
        Settings {
            path_cover: self.path_cover.clone(),
            looped: self.looped,
            speed: self.speed,
            backend: self.backend,
            gpu_device: match &self.gpu_device {
                Some(d) => Some(d.clone()),
                None => None,
            },
        }
    }

    /// Two settings are equal: each field is, the speeds as numbers, the paths component by
    /// component.
    pub open spec fn equals(&self, other: &Settings) -> bool {
        &&& crate::path::path_key(self.path_cover@) == crate::path::path_key(other.path_cover@)
        &&& self.looped == other.looped
        &&& double::compares_equal(self.speed, other.speed)
        &&& self.backend == other.backend
        &&& match (self.gpu_device, other.gpu_device) {
            (Some(a), Some(b)) => crate::path::path_key(a@) == crate::path::path_key(b@),
            (None, None) => true,
            _ => false,
        }
    }

    /// Whether two settings are equal.
    pub fn same(&self, other: &Settings) -> (r: bool)
        ensures
            r == self.equals(other),
    {
        let device = match (&self.gpu_device, &other.gpu_device) {
            (Some(a), Some(b)) => same_path(a.as_str(), b.as_str()),
            (None, None) => true,
            _ => false,
        };
        same_path(self.path_cover.as_str(), other.path_cover.as_str()) && self.looped == other.looped
            && double::equal(self.speed, other.speed) && self.backend == other.backend && device
    }
}

/// What makes playback parameters the same: the path, component by component, the bits of the
/// speed, the loop.
pub type PlayKey = ((bool, Seq<Seq<char>>), u64, bool);

/// What to play in a window, and how. Windows with the same parameters share one decoder and
/// one texture.
#[derive(Debug, Clone)]
pub struct PlayParams {
    pub path: String,
    /// Bits of the playback speed.
    pub speed: u64,
    pub looped: bool,
}

/// The text of a rule's value, if the value is there and not blank.
pub open spec fn given(value: Option<&str>) -> Option<Seq<char>> {
    match value {
        Some(v) => if crate::text::trimmed(v@).len() == 0 {
            None
        } else {
            Some(crate::text::trimmed(v@))
        },
        None => None,
    }
}

/// The value of a rule without the white space around it, if something is left.
fn non_blank<'a>(value: Option<&'a str>) -> (r: Option<&'a str>)
    ensures
        home_of(r) == given(value),
{
    match value {
        Some(v) => {
            let t = trim(v);
            if t.unicode_len() == 0 {
                None
            } else {
                Some(t)
            }
        },
        None => None,
    }
}

impl View for PlayParams {
    type V = (Seq<char>, u64, bool);

    /// The path as it is written, the bits of the speed, the loop.
    open spec fn view(&self) -> (Seq<char>, u64, bool) {
        (self.path@, self.speed, self.looped)
    }
}

impl PlayParams {
    /// What makes two parameters the same.
    pub open spec fn key(&self) -> PlayKey {
        (crate::path::path_key(self.path@), self.speed, self.looped)
    }

    /// Applies the overrides of a window rule; a blank value changes nothing. `number` is the
    /// bits of the number that the text of `speed` (without the white space around it)
    /// spells, `None` if it spells none.
    pub fn with_rule(
        self,
        path: Option<&str>,
        speed: Option<&str>,
        number: Option<u64>,
        looped: Option<&str>,
        home: Option<&str>,
    ) -> (r: PlayParams)
        ensures
            r.path@ == match given(path) {
                Some(p) => home_expanded(p, home_of(home)),
                None => self.path@,
            },
            r.speed == match given(speed) {
                Some(_) => match number {
                    Some(n) => sane_speed(n),
                    None => double::ONE,
                },
                None => self.speed,
            },
            r.looped == match given(looped) {
                Some(l) => says_yes(l),
                None => self.looped,
            },
    {
        let mut out = self;
        if let Some(p) = non_blank(path) {
            out.path = expand_home(p, home);
        }
        if non_blank(speed).is_some() {
            out.speed = match number {
                Some(n) => sanitize_speed(n),
                None => double::ONE,
            };
        }
        if let Some(l) = non_blank(looped) {
            out.looped = truthy(l);
        }
        out
    }

    /// Whether two windows share a cover.
    pub fn same(&self, other: &PlayParams) -> (r: bool)
        ensures
            r == (self.key() == other.key()),
    {
        same_path(self.path.as_str(), other.path.as_str()) && self.speed == other.speed && self.looped
            == other.looped
    }

    /// The same parameters once more.
    pub fn copy(&self) -> (r: PlayParams)
        ensures
            r@ == self@,
    {
        PlayParams { path: self.path.clone(), speed: self.speed, looped: self.looped }
    }
}

/// A speed that is not positive, not finite or not a number counts as 1.0.
pub open spec fn sane_speed(speed: u64) -> u64 {
    if double::is_positive(speed) {
        speed
    } else {
        double::ONE
    }
}

/// A speed that is not positive, not finite or not a number counts as 1.0.
/// Speeds are given by their bits.
pub fn sanitize_speed(speed: u64) -> (r: u64)
    ensures
        r == sane_speed(speed),
{
    if double::positive(speed) {
        speed
    } else {
        double::ONE
    }
}

/// Everything but 0, false, no and off means yes.
pub open spec fn says_yes(raw: Seq<char>) -> bool {
    let word = crate::text::lowered(crate::text::trimmed(raw));
    word != "0"@ && word != "false"@ && word != "no"@ && word != "off"@
}

/// Whether a word of the configuration means yes.
pub fn truthy(raw: &str) -> (r: bool)
    ensures
        r == says_yes(raw@),
{
    let word = to_lower(trim(raw));
    let w = word.as_str();
    !(same(w, "0") || same(w, "false") || same(w, "no") || same(w, "off"))
}

/// The home directory, from the value of `HOME`; an empty value is none.
pub fn home_dir(value: Option<&str>) -> (r: Option<String>)
    ensures
        text_of(r) == match value {
            Some(v) => if v@.len() == 0 {
                None
            } else {
                Some(v@)
            },
            None => None,
        },
{
    match value {
        Some(v) => if v.unicode_len() == 0 {
            None
        } else {
            Some(v.to_owned())
        },
        None => None,
    }
}

/// `~` and `~/…` name the home directory and what is below it, if there is one. Every other
/// path stays as it is.
pub open spec fn home_expanded(path: Seq<char>, home: Option<Seq<char>>) -> Seq<char> {
    match home {
        Some(h) => if path == seq!['~'] {
            h
        } else if path.len() >= 2 && path[0] == '~' && path[1] == '/' {
            crate::path::joined(h, path.skip(2))
        } else {
            path
        },
        None => path,
    }
}

/// Expands `~` and `~/…`.
pub fn expand_home(path: &str, home: Option<&str>) -> (r: String)
    ensures
        r@ == home_expanded(path@, home_of(home)),
{
    let chars = chars_of(path);
    let n: usize = chars.len();
    match home {
        Some(h) => {
            if n == 1 && chars[0] == '~' {
                assert(path@ =~= seq!['~']);
                h.to_owned()
            } else if n >= 2 && chars[0] == '~' && chars[1] == '/' {
                assert(path@.skip(2) =~= path@.subrange(2, n as int));
                assert(path@ != seq!['~']) by {
                    assert(path@.len() != seq!['~'].len());
                }
                join(h, path.substring_char(2, n))
            } else {
                assert(path@ != seq!['~']) by {
                    if path@ == seq!['~'] {
                        assert(path@[0] == '~');
                    }
                }
                path.to_owned()
            }
        },
        None => path.to_owned(),
    }
}

/// The directory of the configuration, below the home directory.
pub open spec fn config_dir_of(home: Option<Seq<char>>) -> Seq<char> {
    let h = match home {
        Some(h) => h,
        None => Seq::empty(),
    };
    crate::path::joined(crate::path::joined(h, ".config"@), "hypr"@)
}

/// The directory of the configuration.
pub fn config_dir(home: Option<&str>) -> (r: String)
    ensures
        r@ == config_dir_of(home_of(home)),
{
    match home {
        Some(h) => join(join(h, ".config").as_str(), "hypr"),
        None => {
            let none = String::new();
            join(join(none.as_str(), ".config").as_str(), "hypr")
        },
    }
}

/// The names that the default file may have, the preferred one first.
pub open spec fn default_names() -> Seq<Seq<char>> {
    seq![
        "noshare-cover.gif"@,
        "noshare-cover.jpg"@,
        "noshare-cover.jpeg"@,
        "noshare-cover.png"@,
        "noshare-cover.mp4"@,
    ]
}

/// The paths that the default file may have in `dir`, the preferred one first.
pub fn default_media_paths(dir: &str) -> (r: Vec<String>)
    ensures
        r@.len() == default_names().len(),
        forall|i: int|
            0 <= i < r@.len() ==> (#[trigger] r@[i])@ == crate::path::joined(
                dir@,
                default_names()[i],
            ),
{
    let mut out: Vec<String> = Vec::new();
    out.push(join(dir, "noshare-cover.gif"));
    out.push(join(dir, "noshare-cover.jpg"));
    out.push(join(dir, "noshare-cover.jpeg"));
    out.push(join(dir, "noshare-cover.png"));
    out.push(join(dir, "noshare-cover.mp4"));
    out
}

/// The index of the first file that is there, 0 if none is.
pub open spec fn first_present(present: Seq<bool>, from: int) -> int
    decreases present.len() - from,
{
    if from < 0 || from >= present.len() {
        0
    } else if present[from] {
        from
    } else {
        first_present(present, from + 1)
    }
}

/// The default file in `dir`: the first of `default_media_paths` that exists, else the first
/// of them. `present` says of each whether it exists.
pub fn default_media_path_in(dir: &str, present: &[bool; 5]) -> (r: String)
    ensures
        0 <= first_present(present@, 0) < 5,
        r@ == crate::path::joined(dir@, default_names()[first_present(present@, 0)]),
{
    let mut paths = default_media_paths(dir);
    let mut i: usize = 0;
    while i < 5
        invariant
            i <= 5,
            present@.len() == 5,
            paths@.len() == 5,
            default_names().len() == 5,
            first_present(present@, 0) == first_present(present@, i as int),
            forall|j: int|
                0 <= j < 5 ==> (#[trigger] paths@[j])@ == crate::path::joined(
                    dir@,
                    default_names()[j],
                ),
        decreases 5 - i,
    {
        if present[i] {
            return paths.swap_remove(i);
        }
        i += 1;
    }
    paths.swap_remove(0)
}

/// The default file, in the directory of the configuration.
pub fn default_media_path(home: Option<&str>, present: &[bool; 5]) -> (r: String)
    ensures
        0 <= first_present(present@, 0) < 5,
        r@ == crate::path::joined(
            config_dir_of(home_of(home)),
            default_names()[first_present(present@, 0)],
        ),
{
    let dir = config_dir(home);
    default_media_path_in(dir.as_str(), present)
}

/// A sane speed is positive and stays as it is; there is nothing left to repair.
pub proof fn sane_speed_is_positive(speed: u64)
    ensures
        double::is_positive(sane_speed(speed)),
        sane_speed(sane_speed(speed)) == sane_speed(speed),
        double::is_positive(speed) ==> sane_speed(speed) == speed,
{
}

/// The preferred default file is the first that exists: no name before it is there.
pub proof fn default_prefers_first_existing(present: Seq<bool>, from: int, i: int)
    requires
        0 <= from <= i < present.len(),
        present[i],
    ensures
        from <= first_present(present, from) <= i,
        present[first_present(present, from)],
        forall|j: int| from <= j < first_present(present, from) ==> !present[j],
    decreases i - from,
{
    if !present[from] {
        default_prefers_first_existing(present, from + 1, i);
    }
}

} // verus!
