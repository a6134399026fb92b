//! The settings file: one `key=value` setting per line. Lines end at `\n`, a `\r` before it
//! dropped; a line without `=` is skipped, and a value ends at the next `=`. This module splits
//! the text into settings, knows the keys, and reads the flag and count values; values that are
//! floats or JSON are read by the caller.
use crate::mesh::bytes_equal;
use vstd::prelude::*;
use vstd::string::StringSliceAdditionalSpecFns;

verus! {

/// The place of the first `c` in `s` at or after `k`.
pub open spec fn find_from(s: Seq<u8>, c: u8, k: nat) -> Option<nat>
    decreases s.len() - k,
{
    if k >= s.len() {
        None
    } else if s[k as int] == c {
        Some(k)
    } else {
        find_from(s, c, k + 1)
    }
}

/// `line` without one `\r` at its end.
pub open spec fn without_cr(line: Seq<u8>) -> Seq<u8> {
    if line.len() > 0 && line.last() == 13u8 {
        line.drop_last()
    } else {
        line
    }
}

/// The lines of `text`: the parts between `\n`s, each without a `\r` before its `\n`; text after
/// the last `\n` is a last line where it is not empty.
pub open spec fn text_lines(text: Seq<u8>) -> Seq<Seq<u8>>
    decreases text.len(),
{
    match find_from(text, 10u8, 0) {
        Some(i) => {
            proof {
                lemma_find_from_bounds(text, 10u8, 0);
            }
            seq![without_cr(text.subrange(0, i as int))] + text_lines(
                text.subrange(i as int + 1, text.len() as int),
            )
        },
        None => if text.len() == 0 {
            Seq::empty()
        } else {
            seq![text]
        },
    }
}

/// A byte found from `k` stands at or after `k`, and none stands between `k` and it.
pub proof fn lemma_find_from_bounds(s: Seq<u8>, c: u8, k: nat)
    ensures
        find_from(s, c, k) matches Some(i) ==> k <= i < s.len() && s[i as int] == c && forall|j: int|
            k <= j < i ==> s[j] != c,
        find_from(s, c, k) is None ==> forall|j: int| k <= j < s.len() ==> s[j] != c,
    decreases s.len() - k,
{
    if k < s.len() && s[k as int] != c {
        lemma_find_from_bounds(s, c, k + 1);
    }
}

/// The place of the first `sep` in `s` starting at or after `k`.
pub open spec fn find_sep_from(s: Seq<u8>, sep: Seq<u8>, k: nat) -> Option<nat>
    decreases s.len() - k,
{
    if k + sep.len() > s.len() {
        None
    } else if s.subrange(k as int, k + sep.len() as int) == sep {
        Some(k)
    } else {
        proof {
            if sep.len() == 0 {
                assert(s.subrange(k as int, k as int) =~= sep);
            }
        }
        find_sep_from(s, sep, k + 1)
    }
}

/// A `sep` found from `k` stands whole in `s`, at or after `k`.
proof fn lemma_find_sep_bounds(s: Seq<u8>, sep: Seq<u8>, k: nat)
    ensures
        find_sep_from(s, sep, k) matches Some(i) ==> k <= i && i + sep.len() <= s.len(),
    decreases s.len() - k,
{
    if k + sep.len() <= s.len() && s.subrange(k as int, k + sep.len() as int) != sep {
        if sep.len() == 0 {
            assert(s.subrange(k as int, k as int) =~= sep);
        }
        lemma_find_sep_bounds(s, sep, k + 1);
    }
}

/// The setting on a line with separator `sep`: the key before the first `sep` and the value
/// after it, up to the next `sep` or the end; `None` for a line without `sep`.
pub open spec fn split_setting(line: Seq<u8>, sep: Seq<u8>) -> Option<(Seq<u8>, Seq<u8>)> {
    match find_sep_from(line, sep, 0) {
        Some(i) => {
            let rest = line.subrange(i + sep.len() as int, line.len() as int);
            let value = match find_sep_from(rest, sep, 0) {
                Some(j) => rest.subrange(0, j as int),
                None => rest,
            };
            Some((line.subrange(0, i as int), value))
        },
        None => None,
    }
}

/// The separator of the settings file is the one byte of `=`.
proof fn lemma_eq_sign_bytes()
    ensures
        "=".spec_bytes() == seq![61u8],
{
    broadcast use vstd::string::is_ascii_spec_bytes;

    reveal_strlit("=");
    assert(vstd::string::is_ascii("="));
    assert("=".spec_bytes() =~= seq![61u8]);
}

/// The setting on a line of the settings file: split at `=`.
pub open spec fn line_setting(line: Seq<u8>) -> Option<(Seq<u8>, Seq<u8>)> {
    split_setting(line, "=".spec_bytes())
}

/// The settings of a file whose lines are split at `sep`, in the order of its lines.
pub open spec fn text_settings(text: Seq<u8>, sep: Seq<u8>) -> Seq<(Seq<u8>, Seq<u8>)> {
    settings_of_lines(text_lines(text), sep)
}

/// The settings of the settings file, in the order of its lines.
pub open spec fn file_settings(text: Seq<u8>) -> Seq<(Seq<u8>, Seq<u8>)> {
    text_settings(text, "=".spec_bytes())
}

/// The settings of `lines` split at `sep`, skipping lines without one.
pub open spec fn settings_of_lines(lines: Seq<Seq<u8>>, sep: Seq<u8>) -> Seq<(Seq<u8>, Seq<u8>)>
    decreases lines.len(),
{
    if lines.len() == 0 {
        Seq::empty()
    } else {
        let front = settings_of_lines(lines.drop_last(), sep);
        match split_setting(lines.last(), sep) {
            Some(p) => front.push(p),
            None => front,
        }
    }
}

/// The place of the first `c` in `s` at or after `k`.
pub(crate) fn find_byte(s: &[u8], c: u8, k: usize) -> (r: Option<usize>)
    requires
        k <= s@.len(),
    ensures
        r is Some <==> find_from(s@, c, k as nat) is Some,
        r matches Some(i) ==> find_from(s@, c, k as nat) == Some(i as nat) && i < s@.len(),
{
    let mut i = k;
    while i < s.len()
        invariant
            k <= i <= s@.len(),
            find_from(s@, c, k as nat) == find_from(s@, c, i as nat),
        decreases s@.len() - i,
    {
        if s[i] == c {
            return Some(i);
        }
        i += 1;
    }
    None
}

/// The place of the first `sep` in `s` starting at or after `k`.
fn find_sep(s: &[u8], sep: &[u8], k: usize) -> (r: Option<usize>)
    requires
        k <= s@.len(),
        sep@.len() > 0,
    ensures
        r is Some <==> find_sep_from(s@, sep@, k as nat) is Some,
        r matches Some(i) ==> find_sep_from(s@, sep@, k as nat) == Some(i as nat) && i + sep@.len() <= s@.len(),
{
    let n = s.len();
    let m = sep.len();
    let mut i = k;
    while i < n && m <= n - i
        invariant
            k <= i <= n,
            n == s@.len(),
            m == sep@.len(),
            m > 0,
            find_sep_from(s@, sep@, k as nat) == find_sep_from(s@, sep@, i as nat),
        decreases n - i,
    {
        if bytes_equal(vstd::slice::slice_subrange(s, i, i + m), sep) {
            return Some(i);
        }
        i += 1;
    }
    None
}

/// The setting on a line split at `sep`, as `split_setting` says.
pub fn parse_setting_line_with(line: &[u8], sep: &[u8]) -> (r: Option<(Vec<u8>, Vec<u8>)>)
    requires
        sep@.len() > 0,
    ensures
        match split_setting(line@, sep@) {
            Some((k, v)) => r matches Some((rk, rv)) && rk@ == k && rv@ == v,
            None => r is None,
        },
{
    let len = line.len();
    let at = match find_sep(line, sep, 0) {
        Some(i) => i,
        None => {
            return None;
        },
    };
    let key = vstd::slice::slice_subrange(line, 0, at);
    let rest = vstd::slice::slice_subrange(line, at + sep.len(), len);
    let value = match find_sep(rest, sep, 0) {
        Some(j) => vstd::slice::slice_subrange(rest, 0, j),
        None => rest,
    };
    Some((vstd::slice::slice_to_vec(key), vstd::slice::slice_to_vec(value)))
}

/// The setting on a line of the settings file, as `line_setting` says.
pub fn parse_setting_line(line: &[u8]) -> (r: Option<(Vec<u8>, Vec<u8>)>)
    ensures
        match line_setting(line@) {
            Some((k, v)) => r matches Some((rk, rv)) && rk@ == k && rv@ == v,
            None => r is None,
        },
{
    proof {
        lemma_eq_sign_bytes();
    }
    parse_setting_line_with(line, "=".as_bytes())
}

/// The settings of the settings file, as `file_settings` says.
pub fn parse_settings(text: &[u8]) -> (r: Vec<(Vec<u8>, Vec<u8>)>)
    ensures
        r@.len() == file_settings(text@).len(),
        forall|i: int| 0 <= i < r@.len() ==> (#[trigger] r@[i]).0@ == file_settings(text@)[i].0 && r@[i].1@
            == file_settings(text@)[i].1,
{
    proof {
        lemma_eq_sign_bytes();
    }
    parse_settings_with(text, "=".as_bytes())
}

/// The settings of a text whose lines are split at `sep`, as `text_settings` says.
pub fn parse_settings_with(text: &[u8], sep: &[u8]) -> (r: Vec<(Vec<u8>, Vec<u8>)>)
    requires
        sep@.len() > 0,
    ensures
        r@.len() == text_settings(text@, sep@).len(),
        forall|i: int| 0 <= i < r@.len() ==> (#[trigger] r@[i]).0@ == text_settings(text@, sep@)[i].0 && r@[i].1@
            == text_settings(text@, sep@)[i].1,
{
    let mut out: Vec<(Vec<u8>, Vec<u8>)> = Vec::new();
    let ghost done: Seq<Seq<u8>> = Seq::empty();
    let mut start: usize = 0;
    let n = text.len();
    assert(text@.subrange(0, n as int) =~= text@);
    while start < n
        invariant
            start <= n,
            n == text@.len(),
            sep@.len() > 0,
            text_lines(text@) == done + text_lines(text@.subrange(start as int, n as int)),
            out@.len() == settings_of_lines(done, sep@).len(),
            forall|i: int| 0 <= i < out@.len() ==> (#[trigger] out@[i]).0@ == settings_of_lines(done, sep@)[i].0
                && out@[i].1@ == settings_of_lines(done, sep@)[i].1,
        decreases n - start,
    {
        let ghost rest = text@.subrange(start as int, n as int);
        let end = match find_byte(text, 10u8, start) {
            Some(i) => i,
            None => n,
        };
        proof {
            lemma_find_from_bounds(text@, 10u8, start as nat);
            lemma_find_from_bounds(rest, 10u8, 0);
            lemma_find_shift(text@, 10u8, start as nat);
        }
        let mut line_end = end;
        if line_end > start && text[line_end - 1] == 13u8 && end < n {
            line_end = line_end - 1;
        }
        let line = vstd::slice::slice_subrange(text, start, line_end);
        let ghost this_line = line@;
        proof {
            if end < n {
                assert(this_line =~= without_cr(rest.subrange(0, end - start)));
            } else {
                assert(this_line =~= rest);
            }
        }
        let ghost before = settings_of_lines(done, sep@);
        match parse_setting_line_with(line, sep) {
            Some(p) => {
                out.push(p);
            },
            None => {},
        }
        proof {
            assert(done.push(this_line).drop_last() =~= done);
            done = done.push(this_line);
            if end < n {
                assert(text@.subrange(end + 1, n as int) =~= rest.subrange(end - start + 1, rest.len() as int));
                assert(text_lines(rest) =~= seq![this_line] + text_lines(text@.subrange(end + 1, n as int)));
            } else {
                assert(text_lines(rest) =~= seq![this_line]);
                assert(text@.subrange(n as int, n as int) =~= Seq::<u8>::empty());
            }
        }
        start = if end < n {
            end + 1
        } else {
            n
        };
        assert(text_lines(text@) =~= done + text_lines(text@.subrange(start as int, n as int)));
    }
    assert(text@.subrange(n as int, n as int) =~= Seq::<u8>::empty());
    assert(done =~= text_lines(text@));
    out
}

/// The lines of `text`, as `text_lines` says.
pub fn split_lines(text: &[u8]) -> (r: Vec<Vec<u8>>)
    ensures
        r.deep_view() == text_lines(text@),
{
    let mut out: Vec<Vec<u8>> = Vec::new();
    let mut start: usize = 0;
    let n = text.len();
    assert(text@.subrange(0, n as int) =~= text@);
    while start < n
        invariant
            start <= n,
            n == text@.len(),
            text_lines(text@) == out.deep_view() + text_lines(text@.subrange(start as int, n as int)),
        decreases n - start,
    {
        let ghost rest = text@.subrange(start as int, n as int);
        let end = match find_byte(text, 10u8, start) {
            Some(i) => i,
            None => n,
        };
        proof {
            lemma_find_from_bounds(text@, 10u8, start as nat);
            lemma_find_from_bounds(rest, 10u8, 0);
            lemma_find_shift(text@, 10u8, start as nat);
        }
        let mut line_end = end;
        if line_end > start && text[line_end - 1] == 13u8 && end < n {
            line_end = line_end - 1;
        }
        let line = vstd::slice::slice_to_vec(vstd::slice::slice_subrange(text, start, line_end));
        let ghost this_line = line@;
        proof {
            if end < n {
                assert(this_line =~= without_cr(rest.subrange(0, end - start)));
            } else {
                assert(this_line =~= rest);
            }
        }
        let ghost before = out.deep_view();
        assert(line.deep_view() =~= this_line);
        out.push(line);
        proof {
            assert(out.deep_view() =~= before.push(this_line));
            if end < n {
                assert(text@.subrange(end + 1, n as int) =~= rest.subrange(end - start + 1, rest.len() as int));
                assert(text_lines(rest) =~= seq![this_line] + text_lines(text@.subrange(end + 1, n as int)));
            } else {
                assert(text_lines(rest) =~= seq![this_line]);
                assert(text@.subrange(n as int, n as int) =~= Seq::<u8>::empty());
            }
        }
        start = if end < n {
            end + 1
        } else {
            n
        };
        assert(text_lines(text@) =~= out.deep_view() + text_lines(text@.subrange(start as int, n as int)));
    }
    assert(text@.subrange(n as int, n as int) =~= Seq::<u8>::empty());
    assert(text_lines(text@) =~= out.deep_view());
    out
}

/// Finding a byte from `k` in `s` is finding it from 0 in what follows `k`, shifted by `k`.
proof fn lemma_find_shift(s: Seq<u8>, c: u8, k: nat)
    requires
        k <= s.len(),
    ensures
        find_from(s, c, k) == match find_from(s.subrange(k as int, s.len() as int), c, 0) {
            Some(j) => Some(j + k),
            None => None::<nat>,
        },
{
    let t = s.subrange(k as int, s.len() as int);
    lemma_find_from_bounds(s, c, k);
    lemma_find_from_bounds(t, c, 0);
    match find_from(s, c, k) {
        Some(i) => {
            assert(t[i - k] == c);
            match find_from(t, c, 0) {
                Some(j) => {
                    assert(s[j as int + k] == t[j as int]);
                },
                None => {},
            }
        },
        None => {
            match find_from(t, c, 0) {
                Some(j) => {
                    assert(s[j as int + k] == t[j as int]);
                },
                None => {},
            }
        },
    }
}

/// The settings that the file can hold.
#[derive(Clone, Copy, Debug, PartialEq, Eq, Structural)]
pub enum SettingKey {
    Vsync,
    UncapFps,
    FpsLimit,
    BallCam,
    StopDay,
    Daytime,
    DaySpeed,
    Msaa,
    CameraState,
    ShowTime,
    UiScale,
    Shadows,
    GameSpeed,
    Paused,
    MouseSensitivity,
    AllowRendering,
    PacketSmoothing,
    CalcBallRot,
}

/// The name of a setting in the file.
pub open spec fn key_name(k: SettingKey) -> Seq<u8> {
    match k {
        SettingKey::Vsync => "vsync".spec_bytes(),
        SettingKey::UncapFps => "uncap_fps".spec_bytes(),
        SettingKey::FpsLimit => "fps_limit".spec_bytes(),
        SettingKey::BallCam => "ball_cam".spec_bytes(),
        SettingKey::StopDay => "stop_day".spec_bytes(),
        SettingKey::Daytime => "daytime".spec_bytes(),
        SettingKey::DaySpeed => "day_speed".spec_bytes(),
        SettingKey::Msaa => "msaa".spec_bytes(),
        SettingKey::CameraState => "camera_state".spec_bytes(),
        SettingKey::ShowTime => "show_time".spec_bytes(),
        SettingKey::UiScale => "ui_scale".spec_bytes(),
        SettingKey::Shadows => "shadows".spec_bytes(),
        SettingKey::GameSpeed => "game_speed".spec_bytes(),
        SettingKey::Paused => "paused".spec_bytes(),
        SettingKey::MouseSensitivity => "mouse_sensitivity".spec_bytes(),
        SettingKey::AllowRendering => "allow_rendering".spec_bytes(),
        SettingKey::PacketSmoothing => "packet_smoothing".spec_bytes(),
        SettingKey::CalcBallRot => "calc_ball_rot".spec_bytes(),
    }
}

/// Each setting is named in the file by its own text, written here byte by byte: `vsync`,
/// `uncap_fps`, `fps_limit`, `ball_cam`, `stop_day`, `daytime`, `day_speed`, `msaa`,
/// `camera_state`, `show_time`, `ui_scale`, `shadows`, `game_speed`, `paused`,
/// `mouse_sensitivity`, `allow_rendering`, `packet_smoothing` and `calc_ball_rot`. With the
/// contract of `setting_key`, a line's key picks exactly the setting of that name.
#[verifier::spinoff_prover]
pub proof fn lemma_key_names()
    ensures
        key_name(SettingKey::Vsync) == seq![118u8, 115, 121, 110, 99],
        key_name(SettingKey::UncapFps) == seq![117u8, 110, 99, 97, 112, 95, 102, 112, 115],
        key_name(SettingKey::FpsLimit) == seq![102u8, 112, 115, 95, 108, 105, 109, 105, 116],
        key_name(SettingKey::BallCam) == seq![98u8, 97, 108, 108, 95, 99, 97, 109],
        key_name(SettingKey::StopDay) == seq![115u8, 116, 111, 112, 95, 100, 97, 121],
        key_name(SettingKey::Daytime) == seq![100u8, 97, 121, 116, 105, 109, 101],
        key_name(SettingKey::DaySpeed) == seq![100u8, 97, 121, 95, 115, 112, 101, 101, 100],
        key_name(SettingKey::Msaa) == seq![109u8, 115, 97, 97],
        key_name(SettingKey::CameraState) == seq![99u8, 97, 109, 101, 114, 97, 95, 115, 116, 97, 116, 101],
        key_name(SettingKey::ShowTime) == seq![115u8, 104, 111, 119, 95, 116, 105, 109, 101],
        key_name(SettingKey::UiScale) == seq![117u8, 105, 95, 115, 99, 97, 108, 101],
        key_name(SettingKey::Shadows) == seq![115u8, 104, 97, 100, 111, 119, 115],
        key_name(SettingKey::GameSpeed) == seq![103u8, 97, 109, 101, 95, 115, 112, 101, 101, 100],
        key_name(SettingKey::Paused) == seq![112u8, 97, 117, 115, 101, 100],
        key_name(SettingKey::MouseSensitivity) == seq![109u8, 111, 117, 115, 101, 95, 115, 101, 110, 115, 105, 116, 105, 118, 105, 116, 121],
        key_name(SettingKey::AllowRendering) == seq![97u8, 108, 108, 111, 119, 95, 114, 101, 110, 100, 101, 114, 105, 110, 103],
        key_name(SettingKey::PacketSmoothing) == seq![112u8, 97, 99, 107, 101, 116, 95, 115, 109, 111, 111, 116, 104, 105, 110, 103],
        key_name(SettingKey::CalcBallRot) == seq![99u8, 97, 108, 99, 95, 98, 97, 108, 108, 95, 114, 111, 116],
{
    assert(key_name(SettingKey::Vsync) =~= seq![118u8, 115, 121, 110, 99]) by {
        reveal_strlit("vsync");
        vstd::string::is_ascii_spec_bytes("vsync");
    }
    assert(key_name(SettingKey::UncapFps) =~= seq![117u8, 110, 99, 97, 112, 95, 102, 112, 115]) by {
        reveal_strlit("uncap_fps");
        vstd::string::is_ascii_spec_bytes("uncap_fps");
    }
    assert(key_name(SettingKey::FpsLimit) =~= seq![102u8, 112, 115, 95, 108, 105, 109, 105, 116]) by {
        reveal_strlit("fps_limit");
        vstd::string::is_ascii_spec_bytes("fps_limit");
    }
    assert(key_name(SettingKey::BallCam) =~= seq![98u8, 97, 108, 108, 95, 99, 97, 109]) by {
        reveal_strlit("ball_cam");
        vstd::string::is_ascii_spec_bytes("ball_cam");
    }
    assert(key_name(SettingKey::StopDay) =~= seq![115u8, 116, 111, 112, 95, 100, 97, 121]) by {
        reveal_strlit("stop_day");
        vstd::string::is_ascii_spec_bytes("stop_day");
    }
    assert(key_name(SettingKey::Daytime) =~= seq![100u8, 97, 121, 116, 105, 109, 101]) by {
        reveal_strlit("daytime");
        vstd::string::is_ascii_spec_bytes("daytime");
    }
    assert(key_name(SettingKey::DaySpeed) =~= seq![100u8, 97, 121, 95, 115, 112, 101, 101, 100]) by {
        reveal_strlit("day_speed");
        vstd::string::is_ascii_spec_bytes("day_speed");
    }
    assert(key_name(SettingKey::Msaa) =~= seq![109u8, 115, 97, 97]) by {
        reveal_strlit("msaa");
        vstd::string::is_ascii_spec_bytes("msaa");
    }
    assert(key_name(SettingKey::CameraState) =~= seq![99u8, 97, 109, 101, 114, 97, 95, 115, 116, 97, 116, 101]) by {
        reveal_strlit("camera_state");
        vstd::string::is_ascii_spec_bytes("camera_state");
    }
    assert(key_name(SettingKey::ShowTime) =~= seq![115u8, 104, 111, 119, 95, 116, 105, 109, 101]) by {
        reveal_strlit("show_time");
        vstd::string::is_ascii_spec_bytes("show_time");
    }
    assert(key_name(SettingKey::UiScale) =~= seq![117u8, 105, 95, 115, 99, 97, 108, 101]) by {
        reveal_strlit("ui_scale");
        vstd::string::is_ascii_spec_bytes("ui_scale");
    }
    assert(key_name(SettingKey::Shadows) =~= seq![115u8, 104, 97, 100, 111, 119, 115]) by {
        reveal_strlit("shadows");
        vstd::string::is_ascii_spec_bytes("shadows");
    }
    assert(key_name(SettingKey::GameSpeed) =~= seq![103u8, 97, 109, 101, 95, 115, 112, 101, 101, 100]) by {
        reveal_strlit("game_speed");
        vstd::string::is_ascii_spec_bytes("game_speed");
    }
    assert(key_name(SettingKey::Paused) =~= seq![112u8, 97, 117, 115, 101, 100]) by {
        reveal_strlit("paused");
        vstd::string::is_ascii_spec_bytes("paused");
    }
    assert(key_name(SettingKey::MouseSensitivity) =~= seq![109u8, 111, 117, 115, 101, 95, 115, 101, 110, 115, 105, 116, 105, 118, 105, 116, 121]) by {
        reveal_strlit("mouse_sensitivity");
        vstd::string::is_ascii_spec_bytes("mouse_sensitivity");
    }
    assert(key_name(SettingKey::AllowRendering) =~= seq![97u8, 108, 108, 111, 119, 95, 114, 101, 110, 100, 101, 114, 105, 110, 103]) by {
        reveal_strlit("allow_rendering");
        vstd::string::is_ascii_spec_bytes("allow_rendering");
    }
    assert(key_name(SettingKey::PacketSmoothing) =~= seq![112u8, 97, 99, 107, 101, 116, 95, 115, 109, 111, 111, 116, 104, 105, 110, 103]) by {
        reveal_strlit("packet_smoothing");
        vstd::string::is_ascii_spec_bytes("packet_smoothing");
    }
    assert(key_name(SettingKey::CalcBallRot) =~= seq![99u8, 97, 108, 99, 95, 98, 97, 108, 108, 95, 114, 111, 116]) by {
        reveal_strlit("calc_ball_rot");
        vstd::string::is_ascii_spec_bytes("calc_ball_rot");
    }
}

/// The setting that `key` names, if any.
pub fn setting_key(key: &[u8]) -> (r: Option<SettingKey>)
    ensures
        r matches Some(k) ==> key@ == key_name(k),
        r is None ==> forall|k: SettingKey| key@ != #[trigger] key_name(k),
{
    if bytes_equal(key, "vsync".as_bytes()) {
        Some(SettingKey::Vsync)
    } else if bytes_equal(key, "uncap_fps".as_bytes()) {
        Some(SettingKey::UncapFps)
    } else if bytes_equal(key, "fps_limit".as_bytes()) {
        Some(SettingKey::FpsLimit)
    } else if bytes_equal(key, "ball_cam".as_bytes()) {
        Some(SettingKey::BallCam)
    } else if bytes_equal(key, "stop_day".as_bytes()) {
        Some(SettingKey::StopDay)
    } else if bytes_equal(key, "daytime".as_bytes()) {
        Some(SettingKey::Daytime)
    } else if bytes_equal(key, "day_speed".as_bytes()) {
        Some(SettingKey::DaySpeed)
    } else if bytes_equal(key, "msaa".as_bytes()) {
        Some(SettingKey::Msaa)
    } else if bytes_equal(key, "camera_state".as_bytes()) {
        Some(SettingKey::CameraState)
    } else if bytes_equal(key, "show_time".as_bytes()) {
        Some(SettingKey::ShowTime)
    } else if bytes_equal(key, "ui_scale".as_bytes()) {
        Some(SettingKey::UiScale)
    } else if bytes_equal(key, "shadows".as_bytes()) {
        Some(SettingKey::Shadows)
    } else if bytes_equal(key, "game_speed".as_bytes()) {
        Some(SettingKey::GameSpeed)
    } else if bytes_equal(key, "paused".as_bytes()) {
        Some(SettingKey::Paused)
    } else if bytes_equal(key, "mouse_sensitivity".as_bytes()) {
        Some(SettingKey::MouseSensitivity)
    } else if bytes_equal(key, "allow_rendering".as_bytes()) {
        Some(SettingKey::AllowRendering)
    } else if bytes_equal(key, "packet_smoothing".as_bytes()) {
        Some(SettingKey::PacketSmoothing)
    } else if bytes_equal(key, "calc_ball_rot".as_bytes()) {
        Some(SettingKey::CalcBallRot)
    } else {
        proof {
            assert forall|k: SettingKey| key@ != #[trigger] key_name(k) by {
                match k {
                    SettingKey::Vsync => {},
                    SettingKey::UncapFps => {},
                    SettingKey::FpsLimit => {},
                    SettingKey::BallCam => {},
                    SettingKey::StopDay => {},
                    SettingKey::Daytime => {},
                    SettingKey::DaySpeed => {},
                    SettingKey::Msaa => {},
                    SettingKey::CameraState => {},
                    SettingKey::ShowTime => {},
                    SettingKey::UiScale => {},
                    SettingKey::Shadows => {},
                    SettingKey::GameSpeed => {},
                    SettingKey::Paused => {},
                    SettingKey::MouseSensitivity => {},
                    SettingKey::AllowRendering => {},
                    SettingKey::PacketSmoothing => {},
                    SettingKey::CalcBallRot => {},
                }
            }
        }
        None
    }
}

/// The flag that a value names: `true` and `false` are the only flags.
pub open spec fn flag_value(v: Seq<u8>) -> Option<bool> {
    if v == "true".spec_bytes() {
        Some(true)
    } else if v == "false".spec_bytes() {
        Some(false)
    } else {
        None
    }
}

/// Reads a flag, as `bool`'s `FromStr` does.
pub fn parse_bool(value: &[u8]) -> (r: Option<bool>)
    ensures
        r == flag_value(value@),
{
    if bytes_equal(value, "true".as_bytes()) {
        Some(true)
    } else if bytes_equal(value, "false".as_bytes()) {
        Some(false)
    } else {
        None
    }
}

/// Whether `b` is an ASCII digit.
pub open spec fn is_digit(b: u8) -> bool {
    48 <= b <= 57
}

/// Whether every byte of `d` is a decimal digit.
pub open spec fn all_digits(d: Seq<u8>) -> bool {
    forall|i: int| 0 <= i < d.len() ==> is_digit(#[trigger] d[i])
}

/// The number that the decimal digits `d` spell.
pub open spec fn digits_value(d: Seq<u8>) -> nat
    decreases d.len(),
{
    if d.len() == 0 {
        0
    } else {
        digits_value(d.drop_last()) * 10 + (d.last() - 48) as nat
    }
}

/// The number that a value spells as an unsigned integer up to `max`, as the integers'
/// `FromStr` reads it: an optional `+`, then at least one decimal digit and nothing else.
pub open spec fn unsigned_value(v: Seq<u8>, max: nat) -> Option<nat> {
    let d = if v.len() > 0 && v[0] == 43u8 {
        v.subrange(1, v.len() as int)
    } else {
        v
    };
    if d.len() > 0 && all_digits(d) && digits_value(d) <= max {
        Some(digits_value(d))
    } else {
        None
    }
}

/// Digits spell at least what their prefix spells.
proof fn lemma_digits_value_grows(d: Seq<u8>, k: int)
    requires
        0 <= k <= d.len(),
        all_digits(d),
    ensures
        digits_value(d.subrange(0, k)) <= digits_value(d),
    decreases d.len() - k,
{
    if k < d.len() {
        lemma_digits_value_grows(d, k + 1);
        assert(d.subrange(0, k + 1).drop_last() =~= d.subrange(0, k));
    } else {
        assert(d.subrange(0, k) =~= d);
    }
}

/// Reads an unsigned integer up to `max`, as `unsigned_value` says.
pub fn parse_unsigned(value: &[u8], max: u64) -> (r: Option<u64>)
    ensures
        r == match unsigned_value(value@, max as nat) {
            Some(n) => Some(n as u64),
            None => None::<u64>,
        },
{
    let len = value.len();
    let start: usize = if len > 0 && value[0] == 43u8 {
        1
    } else {
        0
    };
    let ghost d = value@.subrange(start as int, len as int);
    assert(d =~= (if value@.len() > 0 && value@[0] == 43u8 {
        value@.subrange(1, value@.len() as int)
    } else {
        value@
    }));
    if start == len {
        return None;
    }
    let mut acc: u64 = 0;
    let mut i: usize = start;
    while i < len
        invariant
            start <= i <= len,
            len == value@.len(),
            d == value@.subrange(start as int, len as int),
            d == (if value@.len() > 0 && value@[0] == 43u8 {
                value@.subrange(1, value@.len() as int)
            } else {
                value@
            }),
            forall|j: int| 0 <= j < i - start ==> is_digit(#[trigger] d[j]),
            acc == digits_value(d.subrange(0, i - start)),
            acc <= max,
        decreases len - i,
    {
        let b = value[i];
        if b < 48 || b > 57 {
            proof {
                assert(!is_digit(d[i - start]));
                assert(!all_digits(d));
            }
            return None;
        }
        let digit = (b - 48) as u64;
        assert(d.subrange(0, i - start + 1).drop_last() =~= d.subrange(0, i - start));
        if digit > max || acc > (max - digit) / 10 {
            proof {
                assert(acc * 10 + digit > max) by (nonlinear_arith)
                    requires
                        digit > max || acc > (max - digit) / 10,
                ;
                if all_digits(d) {
                    lemma_digits_value_grows(d, i - start + 1);
                }
            }
            return None;
        }
        assert(acc * 10 + digit <= max) by (nonlinear_arith)
            requires
                digit <= max,
                acc <= (max - digit) / 10,
        ;
        acc = acc * 10 + digit;
        i += 1;
    }
    assert(d.subrange(0, len - start) =~= d);
    Some(acc)
}

/// Reads a count, as `usize`'s `FromStr` does.
pub fn parse_usize(value: &[u8]) -> (r: Option<usize>)
    ensures
        r == match unsigned_value(value@, usize::MAX as nat) {
            Some(n) => Some(n as usize),
            None => None::<usize>,
        },
{
    match parse_unsigned(value, usize::MAX as u64) {
        Some(n) => Some(n as usize),
        None => None,
    }
}

/// Reads a port number, as `u16`'s `FromStr` does.
pub fn parse_u16(value: &[u8]) -> (r: Option<u16>)
    ensures
        r == match unsigned_value(value@, u16::MAX as nat) {
            Some(n) => Some(n as u16),
            None => None::<u16>,
        },
{
    match parse_unsigned(value, u16::MAX as u64) {
        Some(n) => Some(n as u16),
        None => None,
    }
}

/// The port that a command-line argument names, or `default` where there is no argument or it
/// is not a port number.
pub fn port_or(arg: Option<&[u8]>, default: u16) -> (r: u16)
    ensures
        r == match arg {
            Some(a) => match unsigned_value(a@, u16::MAX as nat) {
                Some(n) => n as u16,
                None => default,
            },
            None => default,
        },
{
    match arg {
        Some(a) => match parse_u16(a) {
            Some(p) => p,
            None => default,
        },
        None => default,
    }
}

/// The ASCII decimal digits of `n`, as a count is written to the settings file.
pub open spec fn decimal_bytes(n: nat) -> Seq<u8>
    decreases n,
{
    if n < 10 {
        seq![(48 + n) as u8]
    } else {
        decimal_bytes(n / 10).push((48 + n % 10) as u8)
    }
}

/// The decimal digits of `n` are digits and spell `n`.
proof fn lemma_decimal_bytes_spell(n: nat)
    ensures
        decimal_bytes(n).len() > 0,
        all_digits(decimal_bytes(n)),
        digits_value(decimal_bytes(n)) == n,
    decreases n,
{
    let d = decimal_bytes(n);
    if n < 10 {
        assert(d.drop_last() =~= Seq::<u8>::empty());
        assert(d.last() as int == 48 + n);
        assert(digits_value(d) == digits_value(d.drop_last()) * 10 + (d.last() - 48) as nat);
    } else {
        lemma_decimal_bytes_spell(n / 10);
        assert(d.drop_last() =~= decimal_bytes(n / 10));
        assert(d.last() as int == 48 + n % 10);
        assert(digits_value(d) == digits_value(d.drop_last()) * 10 + (d.last() - 48) as nat);
        assert(digits_value(d.drop_last()) == n / 10);
        assert(n == (n / 10) * 10 + n % 10) by (nonlinear_arith);
        assert forall|i: int| 0 <= i < d.len() implies is_digit(#[trigger] d[i]) by {
            if i < d.len() - 1 {
                assert(d[i] == decimal_bytes(n / 10)[i]);
            }
        }
    }
}

/// A count written to the settings file reads back as itself, wherever it fits the type it is
/// read as.
pub proof fn lemma_count_round_trip(n: nat, max: nat)
    requires
        n <= max,
    ensures
        unsigned_value(decimal_bytes(n), max) == Some(n),
{
    lemma_decimal_bytes_spell(n);
    let d = decimal_bytes(n);
    assert(is_digit(d[0]));
}

/// Of the flag values, `true` reads as true and `false` as false, and nothing else reads.
pub proof fn lemma_flag_values()
    ensures
        flag_value("true".spec_bytes()) == Some(true),
        flag_value("false".spec_bytes()) == Some(false),
        flag_value(seq![116u8, 114, 117, 101]) == Some(true),
        flag_value(seq![102u8, 97, 108, 115, 101]) == Some(false),
        forall|v: Seq<u8>|
            #[trigger] flag_value(v) is Some ==> v == seq![116u8, 114, 117, 101] || v == seq![102u8, 97, 108, 115, 101],
{
    broadcast use vstd::string::is_ascii_spec_bytes;

    reveal_strlit("true");
    reveal_strlit("false");
    assert(vstd::string::is_ascii("true"));
    assert(vstd::string::is_ascii("false"));
    assert("true".spec_bytes().len() != "false".spec_bytes().len());
    assert("true".spec_bytes() =~= seq![116u8, 114, 117, 101]);
    assert("false".spec_bytes() =~= seq![102u8, 97, 108, 115, 101]);
}

} // verus!
