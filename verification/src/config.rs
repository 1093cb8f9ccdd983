//! The persisted configuration: global settings and the video loop, and the
//! edits the user makes to them.
use crate::text::{ascii_chars, chars_of, substring};
use crate::thumbnail::{hex_bytes, hex_lower};
use vstd::prelude::*;

verus! {

/// Bit pattern of the `f64` value `1.0` (normal speed).
pub const DEFAULT_SPEED_BITS: u64 = 0x3ff0_0000_0000_0000;

/// Bit pattern of the `f64` value `100.0` (full volume).
pub const DEFAULT_VOLUME_BITS: u64 = 0x4059_0000_0000_0000;

pub const DEFAULT_IDLE_TIMEOUT_SECONDS: u64 = 120;

/// Playback parameters of a video. Speed and volume are floating-point
/// numbers that the library only carries; they are held as their IEEE-754
/// bit patterns.
#[derive(Clone, Copy, Debug, PartialEq, Eq, Structural)]
pub struct VideoParams {
    pub repeats: u32,
    pub speed_bits: u64,
    pub volume_bits: u64,
}

impl Default for VideoParams {
    fn default() -> (r: Self)
        ensures
            r == (VideoParams {
                repeats: 1,
                speed_bits: DEFAULT_SPEED_BITS,
                volume_bits: DEFAULT_VOLUME_BITS,
            }),
    {
        VideoParams { repeats: 1, speed_bits: DEFAULT_SPEED_BITS, volume_bits: DEFAULT_VOLUME_BITS }
    }
}

/// A video in the loop.
#[derive(Debug)]
pub struct VideoItem {
    pub id: String,
    pub path: String,
    pub filename: String,
    pub local: Option<VideoParams>,
}

impl Clone for VideoItem {
    fn clone(&self) -> (r: Self)
        ensures
            r == *self,
    {
        VideoItem {
            id: self.id.clone(),
            path: self.path.clone(),
            filename: self.filename.clone(),
            local: self.local,
        }
    }
}

/// What adding videos did.
#[derive(Debug, Clone)]
pub struct AddVideosResult {
    pub items: Vec<VideoItem>,
    pub added: usize,
    pub duplicates: usize,
}

#[derive(Debug)]
pub struct GlobalSettings {
    pub default_params: VideoParams,
    pub idle_timeout_seconds: u64,
    pub idle_enabled: bool,
    pub autoplay_on_idle: bool,
    pub start_on_boot: bool,
    /// Id of the video that was playing when playback last stopped.
    pub last_played_id: Option<String>,
}

impl Clone for GlobalSettings {
    fn clone(&self) -> (r: Self)
        ensures
            r == *self,
    {
        GlobalSettings {
            default_params: self.default_params,
            idle_timeout_seconds: self.idle_timeout_seconds,
            idle_enabled: self.idle_enabled,
            autoplay_on_idle: self.autoplay_on_idle,
            start_on_boot: self.start_on_boot,
            last_played_id: match &self.last_played_id {
                Some(s) => Some(s.clone()),
                None => None,
            },
        }
    }
}

impl Default for GlobalSettings {
    fn default() -> (r: Self)
        ensures
            r.default_params == (VideoParams {
                repeats: 1,
                speed_bits: DEFAULT_SPEED_BITS,
                volume_bits: DEFAULT_VOLUME_BITS,
            }),
            r.idle_timeout_seconds == DEFAULT_IDLE_TIMEOUT_SECONDS,
            !r.idle_enabled,
            r.autoplay_on_idle,
            !r.start_on_boot,
            r.last_played_id is None,
    {
        GlobalSettings {
            default_params: VideoParams::default(),
            idle_timeout_seconds: DEFAULT_IDLE_TIMEOUT_SECONDS,
            idle_enabled: false,
            autoplay_on_idle: true,
            start_on_boot: false,
            last_played_id: None,
        }
    }
}

#[derive(Debug)]
pub struct AppConfig {
    pub global: GlobalSettings,
    pub videos: Vec<VideoItem>,
}

impl Clone for AppConfig {
    fn clone(&self) -> (r: Self)
        ensures
            r.global == self.global,
            r.videos@ == self.videos@,
    {
        let videos = self.videos.clone();
        assert(videos@ =~= self.videos@);
        AppConfig { global: self.global.clone(), videos }
    }
}

/// A copy of the whole configuration.
pub fn get_config(config: &AppConfig) -> (r: AppConfig)
    ensures
        r.global == config.global,
        r.videos@ == config.videos@,
{
    config.clone()
}

impl Default for AppConfig {
    fn default() -> (r: Self)
        ensures
            r.global.default_params == (VideoParams {
                repeats: 1,
                speed_bits: DEFAULT_SPEED_BITS,
                volume_bits: DEFAULT_VOLUME_BITS,
            }),
            r.global.idle_timeout_seconds == DEFAULT_IDLE_TIMEOUT_SECONDS,
            !r.global.idle_enabled,
            r.global.autoplay_on_idle,
            !r.global.start_on_boot,
            r.global.last_played_id is None,
            r.videos@.len() == 0,
    {
        AppConfig { global: GlobalSettings::default(), videos: Vec::new() }
    }
}

// ---------------------------------------------------------------------------
// Ids

pub open spec fn is_lower_hex(c: char) -> bool {
    (0x30 <= (c as u32) <= 0x39) || (0x61 <= (c as u32) <= 0x66)
}

/// `s` is a random (version 4) UUID in hyphenated lower-case form:
/// `xxxxxxxx-xxxx-4xxx-Yxxx-xxxxxxxxxxxx` with `Y` one of `8 9 a b`.
pub open spec fn is_uuid_v4_text(s: Seq<char>) -> bool {
    &&& s.len() == 36
    &&& forall|i: int|
        0 <= i < 36 ==> (if i == 8 || i == 13 || i == 18 || i == 23 {
            #[trigger] s[i] == '-'
        } else {
            is_lower_hex(s[i])
        })
    &&& s[14] == '4'
    &&& (s[19] == '8' || s[19] == '9' || s[19] == 'a' || s[19] == 'b')
}

/// The sixteen bytes of a random (version 4) UUID made from sixteen random
/// bytes: the high nibble of byte 6 becomes the version `4`, the two high
/// bits of byte 8 become the RFC 4122 variant `10`.
pub open spec fn v4_bytes(b: Seq<u8>) -> Seq<u8> {
    b.update(6, (b[6] % 16 + 0x40) as u8).update(8, (b[8] % 64 + 0x80) as u8)
}

/// The hyphenated lower-case text of a UUID's sixteen bytes: 32 hex digits
/// in groups of 8, 4, 4, 4 and 12 separated by `'-'`.
pub open spec fn hyphenated(d: Seq<u8>) -> Seq<char> {
    let h = hex_bytes(d);
    let dash = seq![0x2du8];
    ascii_chars(
        h.subrange(0, 8) + dash + h.subrange(8, 12) + dash + h.subrange(12, 16) + dash
            + h.subrange(16, 20) + dash + h.subrange(20, 32),
    )
}

/// The id text of the random UUID built from sixteen random bytes.
pub open spec fn uuid_v4_text(random: Seq<u8>) -> Seq<char> {
    hyphenated(v4_bytes(random))
}

/// `uuid::Builder::from_random_bytes(bytes).into_uuid().to_string()`. The
/// builder keeps the bytes and sets the version and variant bits
/// (`with_version(Version::Random)`: byte 6 becomes `(b & 0x0f) | 0x40`;
/// `with_variant(Variant::RFC4122)`: byte 8 becomes `(b & 0x3f) | 0x80`), and
/// `Display` writes the hyphenated lower-case form. Claimed: the text is
/// exactly `uuid_v4_text(bytes)`.
#[verifier::external_body]
fn uuid_from_random_bytes(bytes: &Vec<u8>) -> (s: String)
    requires
        bytes@.len() == 16,
    ensures
        s@ == uuid_v4_text(bytes@),
{
    let arr: [u8; 16] = match bytes.as_slice().try_into() {
        Ok(a) => a,
        Err(_) => [0u8; 16],
    };
    uuid::Builder::from_random_bytes(arr).into_uuid().to_string()
}

/// Two hex digits per byte: the digits of byte `i` sit at `2i` and `2i + 1`.
pub proof fn lemma_hex_bytes_index(d: Seq<u8>, i: int)
    requires
        0 <= i < d.len(),
    ensures
        hex_bytes(d).len() == 2 * d.len(),
        hex_bytes(d)[2 * i] == hex_lower(d[i] / 16),
        hex_bytes(d)[2 * i + 1] == hex_lower(d[i] % 16),
    decreases d.len(),
{
    crate::thumbnail::lemma_hex_bytes_ascii(d);
    crate::thumbnail::lemma_hex_bytes_ascii(d.drop_last());
    if i < d.len() - 1 {
        lemma_hex_bytes_index(d.drop_last(), i);
    }
}

/// Every id built from sixteen random bytes has the shape of a random
/// UUID: 36 characters, hyphens at 8, 13, 18 and 23, lower-case hex digits
/// elsewhere, version digit `4` and variant digit one of `8 9 a b`.
pub proof fn lemma_uuid_v4_text_shape(random: Seq<u8>)
    requires
        random.len() == 16,
    ensures
        is_uuid_v4_text(uuid_v4_text(random)),
{
    let d = v4_bytes(random);
    let h = hex_bytes(d);
    crate::thumbnail::lemma_hex_bytes_ascii(d);
    assert forall|k: int| 0 <= k < 32 implies is_lower_hex(#[trigger] h[k] as char) by {
        lemma_hex_bytes_index(d, k / 2);
        assert(k == 2 * (k / 2) || k == 2 * (k / 2) + 1);
    }
    lemma_hex_bytes_index(d, 6);
    lemma_hex_bytes_index(d, 8);
    let t = uuid_v4_text(random);
    assert forall|i: int| 0 <= i < 36 implies (if i == 8 || i == 13 || i == 18 || i == 23 {
        #[trigger] t[i] == '-'
    } else {
        is_lower_hex(t[i])
    }) by {
        if i < 8 {
            assert(t[i] == h[i] as char);
        } else if 8 < i < 13 {
            assert(t[i] == h[i - 1] as char);
        } else if 13 < i < 18 {
            assert(t[i] == h[i - 2] as char);
        } else if 18 < i < 23 {
            assert(t[i] == h[i - 3] as char);
        } else if 23 < i {
            assert(t[i] == h[i - 4] as char);
        }
    }
    assert(t[14] == h[12] as char);
    assert(t[19] == h[16] as char);
}

// ---------------------------------------------------------------------------
// File names

/// Number of characters after the last `'/'` of `s`.
pub open spec fn seg_len(s: Seq<char>) -> nat
    decreases s.len(),
{
    if s.len() > 0 && s.last() != '/' {
        1 + seg_len(s.drop_last())
    } else {
        0
    }
}

pub proof fn lemma_seg_len(s: Seq<char>)
    ensures
        seg_len(s) <= s.len(),
        s.len() > 0 && s.last() != '/' ==> seg_len(s) >= 1,
        seg_len(s) < s.len() ==> s[s.len() - seg_len(s) - 1] == '/',
    decreases s.len(),
{
    if s.len() > 0 && s.last() != '/' {
        lemma_seg_len(s.drop_last());
    }
}

/// The final component of a `/`-separated path, ignoring empty and `.`
/// components; `None` when there is none or it is `..` (what
/// `Path::file_name` gives on Unix).
pub open spec fn file_name(s: Seq<char>) -> Option<Seq<char>>
    decreases s.len(),
{
    if s.len() == 0 {
        None
    } else if s.last() == '/' {
        file_name(s.drop_last())
    } else {
        proof {
            lemma_seg_len(s);
        }
        let k = s.len() - seg_len(s);
        let seg = s.skip(k);
        if seg == seq!['.'] {
            file_name(s.take(k))
        } else if seg == seq!['.', '.'] {
            None
        } else {
            Some(seg)
        }
    }
}

/// The name shown for a video: its file name, or the whole path when it
/// has none.
pub open spec fn display_name(path: Seq<char>) -> Seq<char> {
    match file_name(path) {
        Some(n) => n,
        None => path,
    }
}

/// Bounds of `file_name(s)` within `s`.
fn file_name_bounds(s: &Vec<char>) -> (r: Option<(usize, usize)>)
    ensures
        match r {
            Some((a, b)) => a <= b <= s@.len() && file_name(s@) == Some(
                s@.subrange(a as int, b as int),
            ),
            None => file_name(s@) is None,
        },
{
    let mut j = s.len();
    assert(s@.take(j as int) =~= s@);
    loop
        invariant
            j <= s@.len(),
            file_name(s@) == file_name(s@.take(j as int)),
        decreases j,
    {
        if j == 0 {
            return None;
        }
        let ghost t = s@.take(j as int);
        if s[j - 1] == '/' {
            assert(t.drop_last() =~= s@.take(j - 1));
            j = j - 1;
        } else {
            let mut i = j;
            while i > 0 && s[i - 1] != '/'
                invariant
                    i <= j <= s@.len(),
                    t == s@.take(j as int),
                    seg_len(t) == (j - i) + seg_len(s@.take(i as int)),
                decreases i,
            {
                assert(s@.take(i as int).drop_last() =~= s@.take(i - 1));
                i = i - 1;
            }
            proof {
                lemma_seg_len(t);
                assert(seg_len(s@.take(i as int)) == 0);
                assert(t.skip(i as int) =~= s@.subrange(i as int, j as int));
                assert(t.take(i as int) =~= s@.take(i as int));
            }
            let ghost seg = s@.subrange(i as int, j as int);
            if j - i == 1 && s[i] == '.' {
                assert(seg =~= seq!['.']);
                j = i;
            } else if j - i == 2 && s[i] == '.' && s[i + 1] == '.' {
                assert(seg =~= seq!['.', '.']);
                return None;
            } else {
                proof {
                    if seg == seq!['.'] {
                        assert(seg[0] == s@[i as int]);
                    }
                    if seg == seq!['.', '.'] {
                        assert(seg[0] == s@[i as int]);
                        assert(seg[1] == s@[i + 1]);
                    }
                }
                return Some((i, j));
            }
        }
    }
}

/// The name shown for the video at `path`.
pub fn filename_of(path: &String) -> (r: String)
    ensures
        r@ == display_name(path@),
{
    let chars = chars_of(path.as_str());
    match file_name_bounds(&chars) {
        Some((a, b)) => substring(path.as_str(), a, b),
        None => path.clone(),
    }
}

// ---------------------------------------------------------------------------
// Loop edits

/// Some video of `videos` has path `p`.
pub open spec fn has_path(videos: Seq<VideoItem>, p: Seq<char>) -> bool {
    exists|i: int| 0 <= i < videos.len() && (#[trigger] videos[i]).path@ == p
}

/// The paths of `paths` not yet in `videos`, in order (repeats within
/// `paths` are kept).
pub open spec fn new_paths(videos: Seq<VideoItem>, paths: Seq<String>) -> Seq<String>
    decreases paths.len(),
{
    if paths.len() == 0 {
        Seq::empty()
    } else {
        let r = new_paths(videos, paths.drop_last());
        if has_path(videos, paths.last()@) {
            r
        } else {
            r.push(paths.last())
        }
    }
}

pub proof fn lemma_new_paths_len(videos: Seq<VideoItem>, paths: Seq<String>)
    ensures
        new_paths(videos, paths).len() <= paths.len(),
    decreases paths.len(),
{
    if paths.len() > 0 {
        lemma_new_paths_len(videos, paths.drop_last());
    }
}

/// `videos` without the videos whose id is `id`.
pub open spec fn without_id(videos: Seq<VideoItem>, id: Seq<char>) -> Seq<VideoItem>
    decreases videos.len(),
{
    if videos.len() == 0 {
        Seq::empty()
    } else {
        let r = without_id(videos.drop_last(), id);
        if videos.last().id@ == id {
            r
        } else {
            r.push(videos.last())
        }
    }
}

/// Index of the first video of `videos` with id `id`.
pub open spec fn first_index(videos: Seq<VideoItem>, id: Seq<char>) -> Option<int>
    decreases videos.len(),
{
    if videos.len() == 0 {
        None
    } else if videos[0].id@ == id {
        Some(0)
    } else {
        match first_index(videos.drop_first(), id) {
            Some(i) => Some(i + 1),
            None => None,
        }
    }
}

pub proof fn lemma_first_index(videos: Seq<VideoItem>, id: Seq<char>)
    ensures
        match first_index(videos, id) {
            Some(i) => 0 <= i < videos.len() && videos[i].id@ == id && forall|j: int|
                0 <= j < i ==> (#[trigger] videos[j]).id@ != id,
            None => forall|j: int| 0 <= j < videos.len() ==> (#[trigger] videos[j]).id@ != id,
        },
    decreases videos.len(),
{
    if videos.len() > 0 {
        lemma_first_index(videos.drop_first(), id);
        if videos[0].id@ != id {
            match first_index(videos.drop_first(), id) {
                Some(i) => {
                    assert forall|j: int| 0 <= j < i + 1 implies (#[trigger] videos[j]).id@ != id by {
                        if j > 0 {
                            assert(videos[j] == videos.drop_first()[j - 1]);
                        }
                    }
                },
                None => {
                    assert forall|j: int| 0 <= j < videos.len() implies (
                    #[trigger] videos[j]).id@ != id by {
                        if j > 0 {
                            assert(videos[j] == videos.drop_first()[j - 1]);
                        }
                    }
                },
            }
        }
    }
}

/// The videos named by `ids`, in that order, each the first video with that
/// id; ids that name no video are skipped, and videos that no id names are
/// dropped.
pub open spec fn reordered(videos: Seq<VideoItem>, ids: Seq<String>) -> Seq<VideoItem>
    decreases ids.len(),
{
    if ids.len() == 0 {
        Seq::empty()
    } else {
        let r = reordered(videos, ids.drop_last());
        match first_index(videos, ids.last()@) {
            Some(i) => r.push(videos[i]),
            None => r,
        }
    }
}

/// `videos` with the local parameters of the first video with id `id` set
/// to `params`.
pub open spec fn with_params(videos: Seq<VideoItem>, id: Seq<char>, params: Option<VideoParams>) -> Seq<
    VideoItem,
> {
    match first_index(videos, id) {
        Some(i) => videos.update(i, VideoItem { local: params, ..videos[i] }),
        None => videos,
    }
}

/// Index of the first video with id `id`.
pub fn find_index(videos: &Vec<VideoItem>, id: &String) -> (r: Option<usize>)
    ensures
        match r {
            Some(k) => first_index(videos@, id@) == Some(k as int),
            None => first_index(videos@, id@) is None,
        },
{
    proof {
        lemma_first_index(videos@, id@);
    }
    let mut i: usize = 0;
    while i < videos.len()
        invariant
            i <= videos@.len(),
            forall|j: int| 0 <= j < i ==> (#[trigger] videos@[j]).id@ != id@,
        decreases videos@.len() - i,
    {
        if videos[i].id == *id {
            proof {
                lemma_first_index(videos@, id@);
                match first_index(videos@, id@) {
                    Some(k) => {
                        if k < i {
                            assert(videos@[k].id@ != id@);
                        } else if k > i {
                            assert(videos@[i as int].id@ != id@);
                        }
                    },
                    None => {
                        assert(videos@[i as int].id@ != id@);
                    },
                }
            }
            return Some(i);
        }
        i = i + 1;
    }
    proof {
        lemma_first_index(videos@, id@);
        if let Some(k) = first_index(videos@, id@) {
            assert(videos@[k].id@ != id@);
        }
    }
    None
}

/// Whether some video has path `p`.
fn contains_path(videos: &Vec<VideoItem>, p: &String) -> (b: bool)
    ensures
        b == has_path(videos@, p@),
{
    let mut i: usize = 0;
    while i < videos.len()
        invariant
            i <= videos@.len(),
            forall|j: int| 0 <= j < i ==> (#[trigger] videos@[j]).path@ != p@,
        decreases videos@.len() - i,
    {
        if videos[i].path == *p {
            return true;
        }
        i = i + 1;
    }
    false
}

/// A new loop entry for `path` with id `id`: shown under its file name, no
/// local parameters.
pub fn make_video_item(path: String, id: String) -> (r: VideoItem)
    ensures
        r.id == id,
        r.path == path,
        r.filename@ == display_name(path@),
        r.local is None,
{
    let filename = filename_of(&path);
    VideoItem { id, path, filename, local: None }
}

/// Replaces the global settings.
pub fn update_global_settings(config: &mut AppConfig, settings: GlobalSettings)
    ensures
        final(config).global == settings,
        final(config).videos == old(config).videos,
{
    config.global = settings;
}

/// Why videos could not be added.
#[derive(Debug, Clone, Copy, PartialEq, Eq, Structural)]
pub enum AddVideosError {
    /// Fewer random bytes were supplied than the new ids need (sixteen each).
    NotEnoughRandomBytes,
}

/// The sixteen random bytes behind the id of the `i`-th added video.
pub open spec fn id_bytes(random: Seq<u8>, i: int) -> Seq<u8> {
    random.subrange(16 * i, 16 * i + 16)
}

/// Bytes `start .. start + 16` of `random`.
fn random_chunk(random: &Vec<u8>, start: usize) -> (c: Vec<u8>)
    requires
        start + 16 <= random@.len(),
    ensures
        c@ == random@.subrange(start as int, start + 16),
{
    let mut c: Vec<u8> = Vec::new();
    let mut j: usize = 0;
    while j < 16
        invariant
            start + 16 <= random.len(),
            j <= 16,
            c@ == random@.subrange(start as int, start + j),
        decreases 16 - j,
    {
        c.push(random[start + j]);
        j = j + 1;
        assert(c@ =~= random@.subrange(start as int, start + j));
    }
    c
}

/// Adds the paths not yet in the loop, each under a fresh id, at its end.
/// The id of the `i`-th added video is the random UUID built from bytes
/// `16 i .. 16 i + 16` of `random`; when `random` is too short for all new
/// ids, nothing changes and the error says so.
pub fn add_videos(config: &mut AppConfig, paths: &Vec<String>, random: &Vec<u8>) -> (r: Result<
    AddVideosResult,
    AddVideosError,
>)
    ensures
        ({
            let fresh = new_paths(old(config).videos@, paths@);
            &&& (r is Ok <==> 16 * fresh.len() <= random@.len())
            &&& (r is Err ==> r == Err::<AddVideosResult, AddVideosError>(
                AddVideosError::NotEnoughRandomBytes,
            ) && final(config).videos@ == old(config).videos@ && final(config).global == old(
                config,
            ).global)
            &&& (r matches Ok(res) ==> {
                &&& res.added == fresh.len()
                &&& res.duplicates == paths@.len() - fresh.len()
                &&& res.items@.len() == fresh.len()
                &&& forall|i: int|
                    0 <= i < fresh.len() ==> {
                        &&& (#[trigger] res.items@[i]).path == fresh[i]
                        &&& res.items@[i].filename@ == display_name(fresh[i]@)
                        &&& res.items@[i].local is None
                        &&& res.items@[i].id@ == uuid_v4_text(id_bytes(random@, i))
                    }
                &&& final(config).videos@ == old(config).videos@ + res.items@
                &&& final(config).global == old(config).global
            })
        }),
{
    let ghost old_videos = config.videos@;
    let total = paths.len();
    let mut fresh: Vec<String> = Vec::new();
    let mut i: usize = 0;
    while i < total
        invariant
            total == paths@.len(),
            i <= total,
            config.videos@ == old_videos,
            fresh@ == new_paths(old_videos, paths@.take(i as int)),
        decreases total - i,
    {
        assert(paths@.take(i + 1).drop_last() =~= paths@.take(i as int));
        if !contains_path(&config.videos, &paths[i]) {
            fresh.push(paths[i].clone());
        }
        i = i + 1;
    }
    assert(paths@.take(total as int) =~= paths@);
    proof {
        lemma_new_paths_len(old_videos, paths@);
    }
    let added = fresh.len();
    if random.len() / 16 < added {
        return Err(AddVideosError::NotEnoughRandomBytes);
    }
    let mut items: Vec<VideoItem> = Vec::new();
    let mut k: usize = 0;
    while k < added
        invariant
            added == fresh@.len(),
            16 * added <= random.len(),
            k <= added,
            items@.len() == k,
            forall|j: int|
                0 <= j < k ==> {
                    &&& (#[trigger] items@[j]).path == fresh@[j]
                    &&& items@[j].filename@ == display_name(fresh@[j]@)
                    &&& items@[j].local is None
                    &&& items@[j].id@ == uuid_v4_text(id_bytes(random@, j))
                },
        decreases added - k,
    {
        let chunk = random_chunk(random, 16 * k);
        let id = uuid_from_random_bytes(&chunk);
        let item = make_video_item(fresh[k].clone(), id);
        items.push(item);
        k = k + 1;
    }
    let mut m: usize = 0;
    while m < added
        invariant
            added == items@.len(),
            m <= added,
            config.videos@ == old_videos + items@.take(m as int),
            config.global == old(config).global,
        decreases added - m,
    {
        config.videos.push(items[m].clone());
        m = m + 1;
        assert(config.videos@ =~= old_videos + items@.take(m as int));
    }
    assert(items@.take(added as int) =~= items@);
    Ok(AddVideosResult { items, added, duplicates: total - added })
}

/// Removes every video whose id is `id`.
pub fn remove_video(config: &mut AppConfig, id: &String)
    ensures
        final(config).videos@ == without_id(old(config).videos@, id@),
        final(config).global == old(config).global,
{
    let n = config.videos.len();
    let mut kept: Vec<VideoItem> = Vec::new();
    let mut i: usize = 0;
    while i < n
        invariant
            n == config.videos@.len(),
            i <= n,
            kept@ == without_id(config.videos@.take(i as int), id@),
        decreases n - i,
    {
        assert(config.videos@.take(i + 1).drop_last() =~= config.videos@.take(i as int));
        if config.videos[i].id != *id {
            kept.push(config.videos[i].clone());
        }
        i = i + 1;
    }
    assert(config.videos@.take(n as int) =~= config.videos@);
    config.videos = kept;
}

/// Puts the loop in the order `ids` gives (see `reordered`).
pub fn reorder_videos(config: &mut AppConfig, ids: &Vec<String>)
    ensures
        final(config).videos@ == reordered(old(config).videos@, ids@),
        final(config).global == old(config).global,
{
    let n = ids.len();
    let mut ordered: Vec<VideoItem> = Vec::new();
    let mut i: usize = 0;
    while i < n
        invariant
            n == ids@.len(),
            i <= n,
            ordered@ == reordered(config.videos@, ids@.take(i as int)),
        decreases n - i,
    {
        assert(ids@.take(i + 1).drop_last() =~= ids@.take(i as int));
        assert(ids@.take(i + 1).last() == ids@[i as int]);
        match find_index(&config.videos, &ids[i]) {
            Some(k) => {
                proof {
                    lemma_first_index(config.videos@, ids@[i as int]@);
                }
                ordered.push(config.videos[k].clone());
            },
            None => {},
        }
        i = i + 1;
    }
    assert(ids@.take(n as int) =~= ids@);
    config.videos = ordered;
}

/// Sets the local parameters of the first video with id `id`.
pub fn update_video_params(config: &mut AppConfig, id: &String, params: Option<VideoParams>)
    ensures
        final(config).videos@ == with_params(old(config).videos@, id@, params),
        final(config).global == old(config).global,
{
    match find_index(&config.videos, id) {
        Some(k) => {
            let ghost before = config.videos@;
            proof {
                lemma_first_index(config.videos@, id@);
            }
            config.videos[k].local = params;
            assert(config.videos@ =~= before.update(
                k as int,
                VideoItem { local: params, ..before[k as int] },
            ));
            assert(config.videos@ == with_params(before, id@, params));
        },
        None => {},
    }
}

/// Flips idle mode and says whether it is now on.
pub fn toggle_idle_enabled(global: &mut GlobalSettings) -> (enabled: bool)
    ensures
        enabled == !old(global).idle_enabled,
        *final(global) == (GlobalSettings { idle_enabled: enabled, ..*old(global) }),
{
    global.idle_enabled = !global.idle_enabled;
    global.idle_enabled
}

/// After mpv exits on its own, remembers the id of the video that played
/// last, where the next playback resumes; with no such id the settings stay.
pub fn remember_last_played(global: &mut GlobalSettings, last: Option<String>)
    ensures
        *final(global) == (match last {
            Some(id) => GlobalSettings { last_played_id: Some(id), ..*old(global) },
            None => *old(global),
        }),
{
    if let Some(id) = last {
        global.last_played_id = Some(id);
    }
}

} // verus!
