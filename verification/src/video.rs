//! The properties of an input video and how they are shown; which files are taken
//! as videos; how the output image is named.
use vstd::prelude::*;
use crate::paths::{
    file_stem, extension, join_of, parent_of, path_extension, path_join, path_parent,
    path_set_extension, path_stem, set_extension_of, has_separator, path_is_separator,
};
use crate::text::{
    ascii_lower, decimal, push_decimal, push_str, to_ascii_lower, trim_leading_dots,
    trim_start_dots,
};
use crate::float_text::{f64_is_positive_finite, f64_text, f64_value, float_fixed};
use crate::composite::{fps_is_usable, rate_is_usable};

verus! {

/// The properties of a video, as far as they could be read. The rate and the length
/// are the doubles that the reader reported, given by their IEEE 754 bit patterns.
#[derive(Clone, Copy, Debug, PartialEq, Eq, Structural)]
pub struct VideoInfo {
    pub width: i32,
    pub height: i32,
    /// Frames per second.
    pub fps_bits: u64,
    pub frame_count: i32,
    /// The length in seconds.
    pub duration_bits: u64,
    /// The length in seconds as a single-precision float, as the progress shows it.
    pub duration_f32_bits: u32,
}

/// The text shown for a property that is not known.
pub open spec fn unknown_text() -> Seq<char> {
    "--"@
}

/// Whether the length follows from the rate and the frame count: the rate is above one
/// millionth of a frame per second (infinity included, NaN not) and there are frames.
pub open spec fn length_is_known(fps_bits: u64, frame_count: i32) -> bool {
    0x3eb0_c6f7_a0b5_ed8d < fps_bits <= 0x7ff0_0000_0000_0000 && frame_count > 0
}

impl VideoInfo {
    /// The resolution as shown: `"<width> x <height>"`, or `"--"` unless both are positive.
    pub open spec fn resolution_text(self) -> Seq<char> {
        if self.width > 0 && self.height > 0 {
            decimal(self.width as nat) + " x "@ + decimal(self.height as nat)
        } else {
            unknown_text()
        }
    }

    /// The frame rate as shown: two decimals where it is a positive finite number, else `"--"`.
    pub open spec fn fps_text(self) -> Seq<char> {
        if f64_is_positive_finite(self.fps_bits) {
            float_fixed(f64_value(self.fps_bits), 2)
        } else {
            unknown_text()
        }
    }

    /// The frame count as shown, or `"--"` unless it is positive.
    pub open spec fn frame_count_text(self) -> Seq<char> {
        if self.frame_count > 0 {
            decimal(self.frame_count as nat)
        } else {
            unknown_text()
        }
    }

    /// The length as shown: seconds with two decimals and an `s` where it is a positive
    /// finite number, else `"--"`.
    pub open spec fn duration_text(self) -> Seq<char> {
        if f64_is_positive_finite(self.duration_bits) {
            float_fixed(f64_value(self.duration_bits), 2) + "s"@
        } else {
            unknown_text()
        }
    }

    /// The properties of a video from what its reader reported. The length is the
    /// quotient of the frame count by the rate, which the caller divided in double and
    /// in single precision, where it follows from them, and zero otherwise.
    pub fn from_probe(
        width: i32,
        height: i32,
        fps_bits: u64,
        frame_count: i32,
        quotient_bits: u64,
        quotient_f32_bits: u32,
    ) -> (info: VideoInfo)
        ensures
            info.width == width,
            info.height == height,
            info.fps_bits == fps_bits,
            info.frame_count == frame_count,
            info.duration_bits == if length_is_known(fps_bits, frame_count) {
                quotient_bits
            } else {
                0
            },
            info.duration_f32_bits == if length_is_known(fps_bits, frame_count) {
                quotient_f32_bits
            } else {
                0
            },
    {
        let known = 0x3eb0_c6f7_a0b5_ed8d < fps_bits && fps_bits <= 0x7ff0_0000_0000_0000
            && frame_count > 0;
        VideoInfo {
            width,
            height,
            fps_bits,
            frame_count,
            duration_bits: if known { quotient_bits } else { 0 },
            duration_f32_bits: if known { quotient_f32_bits } else { 0 },
        }
    }

    /// Whether the frame rate was read: a finite number above one millionth.
    pub fn fps_is_valid(&self) -> (b: bool)
        ensures
            b == rate_is_usable(self.fps_bits),
    {
        fps_is_usable(self.fps_bits)
    }

    /// `"<width> x <height>"`, or `"--"` unless both are positive.
    pub fn resolution_str(&self) -> (s: String)
        ensures
            s@ == self.resolution_text(),
    {
        if self.width > 0 && self.height > 0 {
            let mut s = String::new();
            push_decimal(&mut s, self.width as u64);
            push_str(&mut s, " x ");
            push_decimal(&mut s, self.height as u64);
            s
        } else {
            String::from_str("--")
        }
    }

    /// The frame rate with two decimals, or `"--"` unless it is a positive finite number.
    pub fn fps_str(&self) -> (s: String)
        ensures
            s@ == self.fps_text(),
    {
        if 0 < self.fps_bits && self.fps_bits < 0x7ff0_0000_0000_0000 {
            f64_text(self.fps_bits, 2)
        } else {
            String::from_str("--")
        }
    }

    /// The frame count, or `"--"` unless it is positive.
    pub fn frame_count_str(&self) -> (s: String)
        ensures
            s@ == self.frame_count_text(),
    {
        if self.frame_count > 0 {
            let mut s = String::new();
            push_decimal(&mut s, self.frame_count as u64);
            proof {
                assert(s@ == Seq::<char>::empty() + decimal(self.frame_count as nat));
            }
            s
        } else {
            String::from_str("--")
        }
    }

    /// The length in seconds with two decimals and an `s`, or `"--"` unless it is a
    /// positive finite number.
    pub fn duration_str(&self) -> (s: String)
        ensures
            s@ == self.duration_text(),
    {
        if 0 < self.duration_bits && self.duration_bits < 0x7ff0_0000_0000_0000 {
            let mut s = f64_text(self.duration_bits, 2);
            push_str(&mut s, "s");
            s
        } else {
            String::from_str("--")
        }
    }
}

/// The extensions, in lower case, of the files that are taken as videos.
pub open spec fn is_video_extension(e: Seq<char>) -> bool {
    ||| e == "mp4"@
    ||| e == "avi"@
    ||| e == "mov"@
    ||| e == "mkv"@
    ||| e == "m4v"@
    ||| e == "webm"@
    ||| e == "wmv"@
    ||| e == "flv"@
    ||| e == "mpg"@
    ||| e == "mpeg"@
}

/// A file is taken as a video when its extension, in any case, is a video extension.
pub open spec fn is_supported_video(path: Seq<char>) -> bool {
    match path_extension(path) {
        Some(e) => is_video_extension(ascii_lower(e)),
        None => false,
    }
}

/// The video extensions, in lower case, as the file dialog lists them.
pub fn video_extensions() -> (v: Vec<&'static str>)
    ensures
        v@.len() == 10,
        forall|k: int| 0 <= k < v@.len() ==> is_video_extension(#[trigger] v@[k]@),
        forall|e: Seq<char>| is_video_extension(e) ==> exists|k: int| 0 <= k < v@.len() && v@[k]@ == e,
{
    let mut v: Vec<&'static str> = Vec::new();
    v.push("mp4");
    v.push("avi");
    v.push("mov");
    v.push("mkv");
    v.push("m4v");
    v.push("webm");
    v.push("wmv");
    v.push("flv");
    v.push("mpg");
    v.push("mpeg");
    proof {
        assert(v@[0]@ == "mp4"@);
        assert(v@[1]@ == "avi"@);
        assert(v@[2]@ == "mov"@);
        assert(v@[3]@ == "mkv"@);
        assert(v@[4]@ == "m4v"@);
        assert(v@[5]@ == "webm"@);
        assert(v@[6]@ == "wmv"@);
        assert(v@[7]@ == "flv"@);
        assert(v@[8]@ == "mpg"@);
        assert(v@[9]@ == "mpeg"@);
    }
    v
}

/// Whether the file at `path` is taken as a video, by its extension in any case.
pub fn is_supported_video_extension(path: &str) -> (b: bool)
    ensures
        b == is_supported_video(path@),
{
    match extension(path) {
        None => false,
        Some(e) => {
            let lower = to_ascii_lower(e.as_str());
            let l = lower.as_str();
            str_eq(l, "mp4") || str_eq(l, "avi") || str_eq(l, "mov") || str_eq(l, "mkv")
                || str_eq(l, "m4v") || str_eq(l, "webm") || str_eq(l, "wmv") || str_eq(l, "flv")
                || str_eq(l, "mpg") || str_eq(l, "mpeg")
        },
    }
}

/// Whether two strings hold the same characters.
pub fn str_eq(a: &str, b: &str) -> (r: bool)
    ensures
        r == (a@ == b@),
{
    let n = a.unicode_len();
    let m = b.unicode_len();
    if n != m {
        return false;
    }
    let mut i: usize = 0;
    while i < n
        invariant
            n == a@.len(),
            m == b@.len(),
            n == m,
            i <= n,
            forall|j: int| 0 <= j < i ==> a@[j] == b@[j],
        decreases n - i,
    {
        if a.get_char(i) != b.get_char(i) {
            return false;
        }
        i = i + 1;
    }
    proof {
        assert(a@ =~= b@);
    }
    true
}

/// The extension that an output is given: the one asked for without its leading dots,
/// or `png` where that leaves nothing.
pub open spec fn output_extension(ext: Seq<char>) -> Seq<char> {
    if trim_leading_dots(ext).len() == 0 {
        "png"@
    } else {
        trim_leading_dots(ext)
    }
}

/// The folder of the default output: the input's parent, or `.` where it has none.
pub open spec fn parent_or_current(input: Seq<char>) -> Seq<char> {
    match path_parent(input) {
        Some(p) => p,
        None => "."@,
    }
}

/// The name of the default output: the input's stem, or `output` where it has none,
/// then `_composite.` and the output extension.
pub open spec fn default_output_name(input: Seq<char>, ext: Seq<char>) -> Seq<char> {
    let stem = match path_stem(input) {
        Some(s) => s,
        None => "output"@,
    };
    stem + "_composite."@ + output_extension(ext)
}

/// The default output of an input: `<stem>_composite.<ext>` beside it.
pub open spec fn default_output(input: Seq<char>, ext: Seq<char>) -> Seq<char> {
    path_join(parent_or_current(input), default_output_name(input, ext))
}

/// The default output image of a video: `<stem>_composite.<ext>` in the video's
/// folder, with `ext` stripped of leading dots and `png` where it is empty.
pub fn default_output_path(input: &str, ext: &str) -> (p: String)
    ensures
        p@ == default_output(input@, ext@),
{
    let dir = match parent_of(input) {
        Some(d) => d,
        None => String::from_str("."),
    };
    let mut name = match file_stem(input) {
        Some(s) => s,
        None => String::from_str("output"),
    };
    push_str(&mut name, "_composite.");
    let trimmed = trim_start_dots(ext);
    if trimmed.as_str().unicode_len() == 0 {
        push_str(&mut name, "png");
    } else {
        push_str(&mut name, trimmed.as_str());
    }
    join_of(dir.as_str(), name.as_str())
}

/// A path that has an extension, kept; else the path with the given extension,
/// stripped of leading dots.
pub open spec fn with_default_extension(path: Seq<char>, default_ext: Seq<char>) -> Seq<char> {
    if path_extension(path) is Some {
        path
    } else {
        path_set_extension(path, trim_leading_dots(default_ext))
    }
}

/// The path as it is, where it has an extension; else with `default_ext` (without its
/// leading dots) set as its extension, which then must hold no path separator.
/// Wherever that extension is not empty, ensuring it once more changes nothing.
pub fn ensure_extension(path: &str, default_ext: &str) -> (p: String)
    requires
        path_extension(path@) is None ==> !has_separator(default_ext@),
    ensures
        p@ == with_default_extension(path@, default_ext@),
        trim_leading_dots(default_ext@).len() > 0 ==> with_default_extension(p@, default_ext@)
            == p@,
{
    match extension(path) {
        Some(_) => String::from_str(path),
        None => {
            let ext = trim_start_dots(default_ext);
            proof {
                lemma_trim_keeps_no_separator(default_ext@);
            }
            set_extension_of(path, ext.as_str())
        },
    }
}

/// Trimming leading dots brings in no path separator.
proof fn lemma_trim_keeps_no_separator(s: Seq<char>)
    requires
        !has_separator(s),
    ensures
        !has_separator(trim_leading_dots(s)),
{
    crate::text::lemma_leading_dots_bound(s);
    let t = trim_leading_dots(s);
    assert forall|j: int| 0 <= j < t.len() implies !path_is_separator(t[j]) by {
        assert(t[j] == s[j + crate::text::leading_dots(s)]);
    }
}

/// The resolution reads width first, then height, whichever is larger: a portrait
/// video shows its smaller width before its larger height.
pub proof fn lemma_resolution_reads_width_then_height(info: VideoInfo)
    requires
        info.width > 0,
        info.height > 0,
    ensures
        info.resolution_text() == decimal(info.width as nat) + " x "@ + decimal(
            info.height as nat,
        ),
{
}

/// A resolution with a side that is not positive could not be read, and shows `--`.
pub proof fn lemma_unread_resolution_is_unknown(info: VideoInfo)
    requires
        info.width <= 0 || info.height <= 0,
    ensures
        info.resolution_text() == "--"@,
{
}

} // verus!
