//! Laws of the configuration and of the bits of its numbers.

use crate::config::{
    config_dir, default_media_path, default_media_path_in, default_media_paths, expand_home, home_dir,
    sanitize_speed, truthy, Backend, ConfigError, PlayParams, RawSettings, Settings,
};
use crate::double::{clamp_to_zero, equal, finite, positive};
use crate::laws::path::below;
use crate::path::same_path;
use crate::text::{to_lower, trim};
use vstd::prelude::*;

verus! {

/// A word in lower case, without white space around it, names a backend.
pub proof fn words_name_backends(raw: &str, t: &str, w: String, r: Option<Backend>)
    requires
        call_ensures(trim, (raw,), t),
        call_ensures(to_lower, (t,), w),
        call_ensures(Backend::parse, (raw,), r),
    ensures
        r == Some(Backend::Auto) <==> w@.len() == 0 || w@ == seq!['a', 'u', 't', 'o'],
        r == Some(Backend::Gpu) <==> w@ == seq!['g', 'p', 'u'] || w@ == seq!['h', 'w'] || w@ == seq![
            'h',
            'a',
            'r',
            'd',
            'w',
            'a',
            'r',
            'e',
        ],
        r == Some(Backend::Cpu) <==> w@ == seq!['c', 'p', 'u'] || w@ == seq!['s', 'w'] || w@ == seq![
            's',
            'o',
            'f',
            't',
            'w',
            'a',
            'r',
            'e',
        ],
{
    reveal_strlit("");
    reveal_strlit("auto");
    reveal_strlit("gpu");
    reveal_strlit("hw");
    reveal_strlit("hardware");
    reveal_strlit("cpu");
    reveal_strlit("sw");
    reveal_strlit("software");
    assert(""@ =~= Seq::<char>::empty());
    assert(w@.len() == 0 ==> w@ =~= ""@);
    assert("auto"@ =~= seq!['a', 'u', 't', 'o']);
    assert("gpu"@ =~= seq!['g', 'p', 'u']);
    assert("hw"@ =~= seq!['h', 'w']);
    assert("hardware"@ =~= seq!['h', 'a', 'r', 'd', 'w', 'a', 'r', 'e']);
    assert("cpu"@ =~= seq!['c', 'p', 'u']);
    assert("sw"@ =~= seq!['s', 'w']);
    assert("software"@ =~= seq!['s', 'o', 'f', 't', 'w', 'a', 'r', 'e']);
    assert("auto"@.len() == 4 && "gpu"@.len() == 3 && "hw"@.len() == 2 && "hardware"@.len() == 8);
    assert("cpu"@.len() == 3 && "sw"@.len() == 2 && "software"@.len() == 8);
    assert("gpu"@[0] != "cpu"@[0] && "hw"@[0] != "sw"@[0] && "hardware"@[0] != "software"@[0]);
}

/// Only 0, false, no and off mean no.
pub proof fn four_words_mean_no(raw: &str, t: &str, w: String, r: bool)
    requires
        call_ensures(trim, (raw,), t),
        call_ensures(to_lower, (t,), w),
        call_ensures(truthy, (raw,), r),
    ensures
        !r <==> w@ == seq!['0'] || w@ == seq!['f', 'a', 'l', 's', 'e'] || w@ == seq!['n', 'o'] || w@
            == seq!['o', 'f', 'f'],
{
    reveal_strlit("0");
    reveal_strlit("false");
    reveal_strlit("no");
    reveal_strlit("off");
    assert("0"@ =~= seq!['0']);
    assert("false"@ =~= seq!['f', 'a', 'l', 's', 'e']);
    assert("no"@ =~= seq!['n', 'o']);
    assert("off"@ =~= seq!['o', 'f', 'f']);
}

/// A speed above zero and below infinity stays as it is; every other is 1.
pub proof fn a_speed_is_a_positive_number(speed: u64, r: u64)
    requires
        call_ensures(sanitize_speed, (speed,), r),
    ensures
        0 < speed < 0x7ff0_0000_0000_0000 ==> r == speed,
        !(0 < speed < 0x7ff0_0000_0000_0000) ==> r == 0x3ff0_0000_0000_0000,
{
}

/// Bits stand for numbers: above those of infinity, whatever the sign, there is none.
pub proof fn bits_are_numbers(a: u64, b: u64, f: bool, p: bool, c: u64, e: bool)
    requires
        call_ensures(finite, (a,), f),
        call_ensures(positive, (a,), p),
        call_ensures(clamp_to_zero, (a,), c),
        call_ensures(equal, (a, b), e),
    ensures
        f <==> a < 0x7ff0_0000_0000_0000 || 0x8000_0000_0000_0000 <= a < 0xfff0_0000_0000_0000,
        p <==> 0 < a < 0x7ff0_0000_0000_0000,
        a < 0x7ff0_0000_0000_0000 ==> c == a,
        a >= 0x7ff0_0000_0000_0000 ==> c == 0,
        a == b ==> (e <==> a <= 0x7ff0_0000_0000_0000 || 0x8000_0000_0000_0000 <= a
            <= 0xfff0_0000_0000_0000),
        a != b ==> (e <==> (a == 0 && b == 0x8000_0000_0000_0000) || (a == 0x8000_0000_0000_0000
            && b == 0)),
{
}

/// An empty home directory is none; every other is as it is told.
pub proof fn a_home_is_not_empty(value: Option<&str>, r: Option<String>)
    requires
        call_ensures(home_dir, (value,), r),
    ensures
        r is Some <==> (value matches Some(v) && v@.len() > 0),
        r matches Some(h) ==> value matches Some(v) && h@ == v@,
{
}

/// `name` below the directory `dir`.
pub open spec fn is_below(dir: Seq<char>, name: Seq<char>, r: Seq<char>) -> bool {
    if name.len() > 0 && name[0] == '/' {
        r == name
    } else if dir.len() == 0 {
        r == name
    } else if dir.last() == '/' {
        r == dir + name
    } else {
        r == below(dir, name)
    }
}

/// Joining puts a name below a directory.
pub proof fn joined_is_below(dir: Seq<char>, name: Seq<char>)
    ensures
        is_below(dir, name, crate::path::joined(dir, name)),
{
    if dir.len() == 0 {
        assert(dir + name =~= name);
    }
}

/// A tilde stands for the home directory, alone or in front of a slash; nothing else changes.
pub proof fn a_tilde_stands_for_the_home(path: &str, home: Option<&str>, r: String, rest: Seq<char>)
    requires
        call_ensures(expand_home, (path, home), r),
    ensures
        home is None ==> r@ == path@,
        home matches Some(h) ==> path@ == seq!['~'] ==> r@ == h@,
        home matches Some(h) ==> path@ == seq!['~', '/'] + rest ==> is_below(h@, rest, r@),
        path@ != seq!['~'] && !(path@.len() >= 2 && path@[0] == '~' && path@[1] == '/') ==> r@
            == path@,
{
    if let Some(h) = home {
        if path@ == seq!['~', '/'] + rest {
            assert(path@.skip(2) =~= rest);
            joined_is_below(h@, rest);
        }
    }
}

/// What the configuration says is what the settings are: a blank file is the default one, a
/// device without a name is picked, an unknown backend is told.
pub proof fn settings_are_what_the_configuration_says(
    raw: RawSettings<'_>,
    home: Option<&str>,
    path: &str,
    r: (Settings, Option<ConfigError>),
    file: &str,
    cover: String,
    device: &str,
    node: String,
    backend: Option<Backend>,
    speed: u64,
)
    requires
        call_ensures(Settings::from_raw, (&raw, home, path), r),
        call_ensures(trim, (raw.path_cover,), file),
        call_ensures(expand_home, (file, home), cover),
        call_ensures(trim, (raw.gpu_device,), device),
        call_ensures(expand_home, (device, home), node),
        call_ensures(Backend::parse, (raw.backend,), backend),
        call_ensures(sanitize_speed, (raw.speed,), speed),
    ensures
        r.0.path_cover@ == (if file@.len() == 0 {
            path@
        } else {
            cover@
        }),
        r.0.looped == raw.looped,
        r.0.speed == speed,
        r.0.gpu_device is None <==> device@.len() == 0 || device@ == seq!['a', 'u', 't', 'o'],
        r.0.gpu_device matches Some(d) ==> d@ == node@,
        backend matches Some(b) ==> r.0.backend == b && r.1 is None,
        backend is None ==> r.0.backend is Auto && (r.1 matches Some(
            ConfigError::UnknownBackend(word),
        ) && word@ == raw.backend@),
{
    reveal_strlit("");
    reveal_strlit("auto");
    assert(device@.len() == 0 <==> device@ =~= ""@);
    assert("auto"@ =~= seq!['a', 'u', 't', 'o']);
}

/// Without a configuration the default file is looped at speed 1, on a device that is picked.
pub proof fn defaults_loop_the_default_file(path: String, r: Settings)
    requires
        call_ensures(Settings::defaults, (path,), r),
    ensures
        r.path_cover@ == path@,
        r.looped,
        r.speed == 0x3ff0_0000_0000_0000,
        r.backend is Auto,
        r.gpu_device is None,
{
}

/// A window without a rule plays the file of the settings, at their speed, in their loop.
pub proof fn a_window_plays_what_is_set(s: Settings, r: PlayParams)
    requires
        call_ensures(Settings::default_play, (&s,), r),
    ensures
        r.path@ == s.path_cover@,
        r.speed == s.speed,
        r.looped == s.looped,
{
}

/// A copy of settings has each of their values.
pub proof fn copied_settings_are_the_same(s: Settings, r: Settings)
    requires
        call_ensures(Settings::copy, (&s,), r),
    ensures
        r.path_cover@ == s.path_cover@,
        r.looped == s.looped,
        r.speed == s.speed,
        r.backend == s.backend,
        r.gpu_device is Some <==> s.gpu_device is Some,
        r.gpu_device matches Some(d) ==> s.gpu_device matches Some(e) && d@ == e@,
{
}

/// Settings are the same if and only if each value is: speeds as numbers, paths as paths.
pub proof fn settings_are_the_same_by_values(
    a: Settings,
    b: Settings,
    r: bool,
    files: (&str, &str, bool),
    devices: (&str, &str, bool),
    speed: bool,
)
    requires
        call_ensures(Settings::same, (&a, &b), r),
        files.0@ == a.path_cover@ && files.1@ == b.path_cover@,
        call_ensures(same_path, (files.0, files.1), files.2),
        a.gpu_device matches Some(d) ==> d@ == devices.0@,
        b.gpu_device matches Some(d) ==> d@ == devices.1@,
        call_ensures(same_path, (devices.0, devices.1), devices.2),
        call_ensures(equal, (a.speed, b.speed), speed),
    ensures
        r <==> files.2 && speed && a.looped == b.looped && a.backend == b.backend && (
        a.gpu_device is Some <==> b.gpu_device is Some) && (a.gpu_device is None || devices.2),
{
}

/// Windows share a cover if and only if they play the same file at the same speed in the same
/// way.
pub proof fn covers_are_shared_by_values(a: PlayParams, b: PlayParams, r: bool, files: (
    &str,
    &str,
    bool,
))
    requires
        call_ensures(PlayParams::same, (&a, &b), r),
        files.0@ == a.path@ && files.1@ == b.path@,
        call_ensures(same_path, (files.0, files.1), files.2),
    ensures
        r <==> files.2 && a.speed == b.speed && a.looped == b.looped,
{
}

/// A copy of parameters has each of their values.
pub proof fn copied_parameters_are_the_same(a: PlayParams, r: PlayParams)
    requires
        call_ensures(PlayParams::copy, (&a,), r),
    ensures
        r.path@ == a.path@,
        r.speed == a.speed,
        r.looped == a.looped,
{
    assert(a@ == r@);
}

/// `word` is the value without the white space around it, if there is a value.
pub open spec fn is_word(value: Option<&str>, word: &str) -> bool {
    value matches Some(v) ==> call_ensures(trim, (v,), word)
}

/// There is a value, and it is not blank.
pub open spec fn is_given(value: Option<&str>, word: &str) -> bool {
    value is Some && word@.len() > 0
}

/// A rule changes what it names and nothing else; a speed that is no number is 1.
pub proof fn a_rule_changes_what_it_names(
    old_one: PlayParams,
    path: (Option<&str>, &str, String),
    speed: (Option<&str>, &str, Option<u64>, u64),
    looped: (Option<&str>, &str, bool),
    home: Option<&str>,
    r: PlayParams,
)
    requires
        call_ensures(PlayParams::with_rule, (old_one, path.0, speed.0, speed.2, looped.0, home), r),
        is_word(path.0, path.1) && is_word(speed.0, speed.1) && is_word(looped.0, looped.1),
        call_ensures(expand_home, (path.1, home), path.2),
        speed.2 matches Some(n) ==> call_ensures(sanitize_speed, (n,), speed.3),
        call_ensures(truthy, (looped.1,), looped.2),
    ensures
        r.path@ == (if is_given(path.0, path.1) {
            path.2@
        } else {
            old_one.path@
        }),
        r.speed == (if !is_given(speed.0, speed.1) {
            old_one.speed
        } else if speed.2 is Some {
            speed.3
        } else {
            0x3ff0_0000_0000_0000
        }),
        r.looped == (if is_given(looped.0, looped.1) {
            looped.2
        } else {
            old_one.looped
        }),
{
}

/// The configuration is in `.config/hypr` below the home directory.
pub proof fn the_configuration_is_below_the_home(home: Option<&str>, r: String)
    requires
        call_ensures(config_dir, (home,), r),
    ensures
        home is None ==> r@ == ".config/hypr"@,
        home matches Some(h) ==> h@.len() > 0 && h@.last() != '/' ==> r@ == h@ + "/.config/hypr"@,
        home matches Some(h) ==> h@.len() > 0 && h@.last() == '/' ==> r@ == h@ + ".config/hypr"@,
        home matches Some(h) ==> h@.len() == 0 ==> r@ == ".config/hypr"@,
{
    reveal_strlit(".config");
    reveal_strlit("hypr");
    reveal_strlit(".config/hypr");
    reveal_strlit("/.config/hypr");
    assert(".config"@.push('/') + "hypr"@ =~= ".config/hypr"@);
    let e = Seq::<char>::empty();
    assert(e + ".config"@ =~= ".config"@);
    if let Some(h) = home {
        assert(h@.push('/') + ".config"@.push('/') + "hypr"@ =~= h@ + "/.config/hypr"@);
        if h@.len() == 0 {
            assert(h@ =~= e);
        }
        assert(r@ =~= crate::path::joined(h@, ".config"@).push('/') + "hypr"@);
    }
}

/// The names of the default file.
pub open spec fn is_default(i: int, name: Seq<char>) -> bool {
    &&& i == 0 ==> name == "noshare-cover.gif"@
    &&& i == 1 ==> name == "noshare-cover.jpg"@
    &&& i == 2 ==> name == "noshare-cover.jpeg"@
    &&& i == 3 ==> name == "noshare-cover.png"@
    &&& i == 4 ==> name == "noshare-cover.mp4"@
}

/// The default file is a GIF, else a JPEG, else a PNG, else an MP4, in this order.
pub proof fn the_default_file_has_five_names(dir: &str, r: Vec<String>, i: int, name: Seq<char>)
    requires
        call_ensures(default_media_paths, (dir,), r),
        is_default(i, name),
        0 <= i < 5,
    ensures
        r@.len() == 5,
        is_below(dir@, name, r@[i]@),
{
    joined_is_below(dir@, name);
}

/// The first of the default files that is there is taken, the first of all if none is.
pub proof fn the_first_file_that_is_there_is_taken(
    dir: &str,
    present: [bool; 5],
    r: String,
    i: int,
    name: Seq<char>,
)
    requires
        call_ensures(default_media_path_in, (dir, &present), r),
        is_default(i, name),
        0 <= i < 5,
        present@[i] || i == 0,
        forall|j: int| 0 <= j < i ==> !#[trigger] present@[j],
        i == 0 && !present@[0] ==> forall|j: int| 0 <= j < 5 ==> !#[trigger] present@[j],
    ensures
        is_below(dir@, name, r@),
{
    joined_is_below(dir@, name);
    if present@[i] {
        crate::config::default_prefers_first_existing(present@, 0, i);
    } else {
        nothing_is_there(present@, 0);
    }
}

proof fn nothing_is_there(present: Seq<bool>, from: int)
    requires
        0 <= from <= present.len(),
        forall|j: int| 0 <= j < present.len() ==> !#[trigger] present[j],
    ensures
        crate::config::first_present(present, from) == 0,
    decreases present.len() - from,
{
    if from < present.len() {
        nothing_is_there(present, from + 1);
    }
}

/// The default file is looked for in the directory of the configuration.
pub proof fn the_default_file_is_in_the_configuration(
    home: Option<&str>,
    present: [bool; 5],
    r: String,
    dir: String,
    d: &str,
    s: String,
)
    requires
        call_ensures(default_media_path, (home, &present), r),
        call_ensures(config_dir, (home,), dir),
        d@ == dir@,
        call_ensures(default_media_path_in, (d, &present), s),
    ensures
        r@ == s@,
{
}

/// Without a word the backend is picked; a word that names none is told.
pub proof fn an_unknown_backend_is_told(b: Backend, e: ConfigError, r: String)
    requires
        call_ensures(<Backend as Default>::default, (), b),
        call_ensures(ConfigError::text, (&e,), r),
    ensures
        b is Auto,
        e matches ConfigError::UnknownBackend(word) ==> r@ == "noshare-cover: неизвестный backend «"@
            + word@ + "», жду auto, gpu или cpu"@,
{
}

} // verus!
