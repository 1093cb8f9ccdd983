//! Planning playback with mpv and interpreting mpv's event stream.
//!
//! The loop is expanded into an mpv playlist (each video repeated as many
//! times as its parameters say), mpv's command line is built from it, and
//! each JSON event line mpv sends is turned into the effects the
//! application must apply (transition flags, the item now playing, the
//! item whose speed and volume to apply).
use crate::config::{VideoItem, VideoParams};
use crate::text::{ascii_chars, decimal_bytes, decimal_string};
use vstd::prelude::*;

verus! {

/// Why playback could not be started or controlled.
#[derive(Debug)]
pub enum PlayerError {
    Spawn { source: std::io::Error },
    Command { source: std::io::Error },
    NotRunning,
    SocketTimeout,
}

impl PlayerError {
    /// The error's text: the variant's name.
    pub fn message(&self) -> (s: String)
        ensures
            s@ == match self {
                PlayerError::Spawn { .. } => "Spawn"@,
                PlayerError::Command { .. } => "Command"@,
                PlayerError::NotRunning => "NotRunning"@,
                PlayerError::SocketTimeout => "SocketTimeout"@,
            },
    {
        match self {
            PlayerError::Spawn { .. } => String::from_str("Spawn"),
            PlayerError::Command { .. } => String::from_str("Command"),
            PlayerError::NotRunning => String::from_str("NotRunning"),
            PlayerError::SocketTimeout => String::from_str("SocketTimeout"),
        }
    }
}

/// Where mpv listens for commands and sends events.
pub const MPV_SOCKET: &'static str = "/tmp/daydream-mpv.sock";

/// Attempts to connect to mpv's IPC socket before the event reader gives up.
pub const SOCKET_CONNECT_ATTEMPTS: u64 = 10;

/// Pause between two connection attempts, in milliseconds.
pub const SOCKET_RETRY_MS: u64 = 100;

/// Parameters that apply to `item`: its own, or the global ones.
pub open spec fn params_of(item: VideoItem, global: VideoParams) -> VideoParams {
    match item.local {
        Some(p) => p,
        None => global,
    }
}

/// How many playlist entries `item` gets (at least one).
pub open spec fn repeat_count(item: VideoItem, global: VideoParams) -> nat {
    let r = params_of(item, global).repeats;
    if r >= 1 {
        r as nat
    } else {
        1
    }
}

/// For each playlist entry, the index of the loop item it plays: item 0
/// repeated `repeat_count` times, then item 1, and so on.
pub open spec fn expanded_map(items: Seq<VideoItem>, global: VideoParams) -> Seq<usize>
    decreases items.len(),
{
    if items.len() == 0 {
        Seq::empty()
    } else {
        expanded_map(items.drop_last(), global) + Seq::new(
            repeat_count(items.last(), global),
            |j: int| (items.len() - 1) as usize,
        )
    }
}

/// Number of playlist entries of the first `items.len()` loop items.
pub open spec fn total_entries(items: Seq<VideoItem>, global: VideoParams) -> nat
    decreases items.len(),
{
    if items.len() == 0 {
        0
    } else {
        total_entries(items.drop_last(), global) + repeat_count(items.last(), global)
    }
}

/// The playlist plays every loop item, in loop order, each as one block of
/// `repeat_count` consecutive entries starting after the entries of the
/// items before it.
pub proof fn lemma_expanded_blocks(items: Seq<VideoItem>, global: VideoParams)
    requires
        items.len() <= usize::MAX,
    ensures
        expanded_map(items, global).len() == total_entries(items, global),
        forall|k: int|
            0 <= k < expanded_map(items, global).len() ==> (#[trigger] expanded_map(items, global)[k])
                < items.len(),
        forall|i: int, k: int|
            #![trigger expanded_map(items, global)[k], items.take(i)]
            0 <= i < items.len() && 0 <= k < expanded_map(items, global).len() ==> (expanded_map(
                items,
                global,
            )[k] == i <==> total_entries(items.take(i), global) <= k < total_entries(
                items.take(i + 1),
                global,
            )),
    decreases items.len(),
{
    if items.len() > 0 {
        let t = items.drop_last();
        lemma_expanded_blocks(t, global);
        let m = expanded_map(items, global);
        let mt = expanded_map(t, global);
        let n = items.len() - 1;
        assert(items.take(n) =~= t);
        assert(items.take(n + 1) =~= items);
        lemma_total_entries_monotone(items, global);
        assert forall|k: int| 0 <= k < m.len() implies (#[trigger] m[k]) < items.len() by {
            if k < mt.len() {
                assert(m[k] == mt[k]);
            }
        }
        assert forall|i: int, k: int|
            #![trigger m[k], items.take(i)]
            0 <= i < items.len() && 0 <= k < m.len() implies (m[k] == i
                <==> total_entries(items.take(i), global) <= k < total_entries(
                items.take(i + 1),
                global,
            )) by {
            if i < n {
                assert(items.take(i) =~= t.take(i));
                assert(items.take(i + 1) =~= t.take(i + 1));
                if k < mt.len() {
                    assert(m[k] == mt[k]);
                } else {
                    assert(m[k] == n);
                    lemma_total_entries_monotone(t, global);
                    assert(t.take(t.len() as int) =~= t);
                    assert(total_entries(t.take(i + 1), global) <= total_entries(
                        t.take(t.len() as int),
                        global,
                    ));
                }
            } else {
                if k < mt.len() {
                    assert(m[k] == mt[k]);
                    assert(mt[k] < t.len());
                }
            }
        }
    }
}

/// Entries of a prefix never outnumber those of a longer prefix.
pub proof fn lemma_total_entries_monotone(items: Seq<VideoItem>, global: VideoParams)
    ensures
        forall|i: int, j: int|
            0 <= i <= j <= items.len() ==> total_entries(#[trigger] items.take(i), global)
                <= total_entries(#[trigger] items.take(j), global),
    decreases items.len(),
{
    if items.len() > 0 {
        let t = items.drop_last();
        lemma_total_entries_monotone(t, global);
        assert forall|i: int, j: int|
            0 <= i <= j <= items.len() implies total_entries(#[trigger] items.take(i), global)
                <= total_entries(#[trigger] items.take(j), global) by {
            if j < items.len() {
                assert(items.take(i) =~= t.take(i));
                assert(items.take(j) =~= t.take(j));
            } else {
                assert(items.take(j) =~= items);
                if i < items.len() {
                    assert(items.take(i) =~= t.take(i));
                    assert(t.take(t.len() as int) =~= t);
                } 
            }
        }
    }
}

/// Expands the loop into playlist entries: the path of each entry and the
/// loop item each entry plays.
pub fn build_expanded_paths(items: &Vec<VideoItem>, global: &VideoParams) -> (r: (
    Vec<String>,
    Vec<usize>,
))
    ensures
        r.1@ == expanded_map(items@, *global),
        r.0@.len() == r.1@.len(),
        forall|k: int|
            0 <= k < r.1@.len() ==> (#[trigger] r.1@[k]) < items@.len() && r.0@[k]
                == items@[r.1@[k] as int].path,
{
    let mut paths: Vec<String> = Vec::new();
    let mut map: Vec<usize> = Vec::new();
    let n = items.len();
    let mut idx: usize = 0;
    while idx < n
        invariant
            n == items@.len(),
            idx <= n,
            map@ == expanded_map(items@.take(idx as int), *global),
            paths@.len() == map@.len(),
            forall|k: int|
                0 <= k < map@.len() ==> (#[trigger] map@[k]) < idx && paths@[k]
                    == items@[map@[k] as int].path,
        decreases n - idx,
    {
        let params = match items[idx].local {
            Some(p) => p,
            None => *global,
        };
        let count: u32 = if params.repeats >= 1 {
            params.repeats
        } else {
            1
        };
        let ghost base = map@;
        let mut j: u32 = 0;
        while j < count
            invariant
                n == items@.len(),
                idx < n,
                j <= count,
                count as nat == repeat_count(items@[idx as int], *global),
                map@ == base + Seq::new(j as nat, |t: int| idx),
                paths@.len() == map@.len(),
                forall|k: int|
                    0 <= k < map@.len() ==> (#[trigger] map@[k]) < idx + 1 && paths@[k]
                        == items@[map@[k] as int].path,
            decreases count - j,
        {
            paths.push(items[idx].path.clone());
            map.push(idx);
            j = j + 1;
            assert(map@ =~= base + Seq::new(j as nat, |t: int| idx));
        }
        assert(items@.take(idx + 1).drop_last() =~= items@.take(idx as int));
        assert(items@.take(idx + 1).last() == items@[idx as int]);
        assert(map@ =~= expanded_map(items@.take(idx + 1), *global));
        idx = idx + 1;
    }
    assert(items@.take(n as int) =~= items@);
    (paths, map)
}

/// First playlist entry that plays loop item `item`.
pub open spec fn first_entry_of(map: Seq<usize>, item: usize) -> Option<int>
    decreases map.len(),
{
    if map.len() == 0 {
        None
    } else if map[0] == item {
        Some(0)
    } else {
        match first_entry_of(map.drop_first(), item) {
            Some(k) => Some(k + 1),
            None => None,
        }
    }
}

pub proof fn lemma_first_entry_of(map: Seq<usize>, item: usize)
    ensures
        match first_entry_of(map, item) {
            Some(k) => 0 <= k < map.len() && map[k] == item && forall|j: int|
                0 <= j < k ==> #[trigger] map[j] != item,
            None => forall|j: int| 0 <= j < map.len() ==> #[trigger] map[j] != item,
        },
    decreases map.len(),
{
    if map.len() > 0 {
        lemma_first_entry_of(map.drop_first(), item);
        assert forall|j: int| 0 < j < map.len() implies #[trigger] map[j] == map.drop_first()[j
            - 1] by {}
    }
}

/// Entry where playback starts when loop item `rotate_to` is asked for.
pub open spec fn start_entry_of(map: Seq<usize>, rotate_to: Option<usize>) -> Option<int> {
    match rotate_to {
        None => None,
        Some(item) => first_entry_of(map, item),
    }
}

pub open spec fn opt_index(o: Option<usize>) -> Option<int> {
    match o {
        Some(k) => Some(k as int),
        None => None,
    }
}

/// The playlist entry where playback of loop item `rotate_to` starts.
pub fn rotate_entry(map: &Vec<usize>, rotate_to: Option<usize>) -> (r: Option<usize>)
    ensures
        opt_index(r) == start_entry_of(map@, rotate_to),
{
    match rotate_to {
        None => None,
        Some(item) => {
            proof {
                lemma_first_entry_of(map@, item);
            }
            let mut i: usize = 0;
            while i < map.len()
                invariant
                    i <= map@.len(),
                    rotate_to == Some(item),
                    forall|j: int| 0 <= j < i ==> #[trigger] map@[j] != item,
                    match first_entry_of(map@, item) {
                        Some(k) => 0 <= k < map@.len() && map@[k] == item && forall|j: int|
                            0 <= j < k ==> #[trigger] map@[j] != item,
                        None => forall|j: int| 0 <= j < map@.len() ==> #[trigger] map@[j] != item,
                    },
                decreases map@.len() - i,
            {
                if map[i] == item {
                    proof {
                        assert(map@[i as int] == item);
                        if let Some(k) = first_entry_of(map@, item) {
                            if k < i {
                                assert(map@[k] != item);
                            } else if k > i {
                                assert(map@[i as int] != item);
                            }
                        }
                    }
                    return Some(i);
                }
                i = i + 1;
            }
            None
        },
    }
}

/// mpv's command line: the fixed options, the start entry when one is
/// given, then every playlist entry.
pub open spec fn mpv_args_spec(paths: Seq<String>, start: Option<usize>) -> Seq<Seq<char>> {
    let fixed = seq![
        "--input-ipc-server=/tmp/daydream-mpv.sock"@,
        "--fullscreen"@,
        "--no-border"@,
        "--vo=gpu-next"@,
        "--keep-open=yes"@,
        "--loop-playlist=inf"@,
    ];
    let with_start = match start {
        Some(e) => fixed.push("--playlist-start="@ + ascii_chars(decimal_bytes(e as nat))),
        None => fixed,
    };
    with_start + Seq::new(paths.len(), |i: int| paths[i]@)
}

/// Builds mpv's command line.
pub fn mpv_args(paths: &Vec<String>, start: Option<usize>) -> (args: Vec<String>)
    ensures
        args@.len() == mpv_args_spec(paths@, start).len(),
        forall|i: int| 0 <= i < args@.len() ==> (#[trigger] args@[i])@ == mpv_args_spec(paths@, start)[i],
{
    let ghost spec_args = mpv_args_spec(paths@, start);
    let mut args: Vec<String> = Vec::new();
    args.push(String::from_str("--input-ipc-server=/tmp/daydream-mpv.sock"));
    args.push(String::from_str("--fullscreen"));
    args.push(String::from_str("--no-border"));
    args.push(String::from_str("--vo=gpu-next"));
    args.push(String::from_str("--keep-open=yes"));
    args.push(String::from_str("--loop-playlist=inf"));
    if let Some(e) = start {
        let mut a = String::from_str("--playlist-start=");
        let digits = decimal_string(e as u64);
        a.append(digits.as_str());
        args.push(a);
    }
    let ghost head = args@.len();
    let mut i: usize = 0;
    while i < paths.len()
        invariant
            i <= paths@.len(),
            spec_args == mpv_args_spec(paths@, start),
            head == spec_args.len() - paths@.len(),
            args@.len() == head + i,
            forall|k: int| 0 <= k < args@.len() ==> (#[trigger] args@[k])@ == spec_args[k],
        decreases paths@.len() - i,
    {
        args.push(paths[i].clone());
        i = i + 1;
    }
    args
}

/// What mpv will be started with.
pub struct PlaybackPlan {
    /// Path of each playlist entry.
    pub paths: Vec<String>,
    /// Loop item each playlist entry plays.
    pub entry_to_item: Vec<usize>,
    /// Entry where playback starts, when a start item was asked for and is
    /// in the playlist.
    pub start_entry: Option<usize>,
    /// mpv's command line.
    pub args: Vec<String>,
    /// Item and entry reported as playing right after start.
    pub baseline_item: usize,
    pub baseline_entry: usize,
    /// Parameters applied right after start (those of the first item).
    pub first_params: VideoParams,
}

/// Plans playback of `items`, starting at loop item `rotate_to` when given;
/// `None` when the loop is empty (nothing is started).
pub fn plan_playback(items: &Vec<VideoItem>, global: &VideoParams, rotate_to: Option<usize>) -> (r:
    Option<PlaybackPlan>)
    ensures
        items@.len() == 0 <==> r is None,
        r matches Some(p) ==> {
            &&& p.entry_to_item@ == expanded_map(items@, *global)
            &&& p.paths@.len() == p.entry_to_item@.len()
            &&& forall|k: int|
                0 <= k < p.paths@.len() ==> (#[trigger] p.paths@[k]) == items@[p.entry_to_item@[k] as int].path
            &&& opt_index(p.start_entry) == start_entry_of(p.entry_to_item@, rotate_to)
            &&& p.args@.len() == mpv_args_spec(p.paths@, p.start_entry).len()
            &&& forall|i: int|
                0 <= i < p.args@.len() ==> (#[trigger] p.args@[i])@ == mpv_args_spec(
                    p.paths@,
                    p.start_entry,
                )[i]
            &&& p.baseline_item == match rotate_to {
                Some(i) => i,
                None => 0,
            }
            &&& p.baseline_entry == match p.start_entry {
                Some(e) => e,
                None => 0,
            }
            &&& p.first_params == params_of(items@[0], *global)
        },
{
    if items.len() == 0 {
        return None;
    }
    let (paths, entry_to_item) = build_expanded_paths(items, global);
    let start_entry = rotate_entry(&entry_to_item, rotate_to);
    let args = mpv_args(&paths, start_entry);
    let baseline_item = match rotate_to {
        Some(i) => i,
        None => 0,
    };
    let baseline_entry = match start_entry {
        Some(e) => e,
        None => 0,
    };
    let first_params = match items[0].local {
        Some(p) => p,
        None => *global,
    };
    Some(
        PlaybackPlan {
            paths,
            entry_to_item,
            start_entry,
            args,
            baseline_item,
            baseline_entry,
            first_params,
        },
    )
}

// ---------------------------------------------------------------------------
// mpv events

/// What an mpv event line holds: the text of its `event` member when that
/// is a string, and its `playlist_entry_id` member when that is a
/// non-negative integer; `None` when the line is not JSON.
pub uninterp spec fn json_event_fields(line: Seq<char>) -> Option<(Option<Seq<char>>, Option<u64>)>;

pub open spec fn opt_text(o: Option<String>) -> Option<Seq<char>> {
    match o {
        Some(s) => Some(s@),
        None => None,
    }
}

/// Reads an event line with `serde_json::from_str::<serde_json::Value>`,
/// then takes its `event` member when it is a JSON string and its
/// `playlist_entry_id` member through `Value::as_u64`. Claimed: the result
/// is a function of the line (named `json_event_fields`); nothing more is
/// stated of JSON syntax.
#[verifier::external_body]
fn event_fields(line: &str) -> (r: Option<(Option<String>, Option<u64>)>)
    ensures
        match r {
            None => json_event_fields(line@) is None,
            Some((name, entry)) => json_event_fields(line@) == Some((opt_text(name), entry)),
        },
{
    let v: serde_json::Value = match serde_json::from_str(line) {
        Ok(v) => v,
        Err(_) => return None,
    };
    let name = match v.get("event") {
        Some(serde_json::Value::String(s)) => Some(s.clone()),
        _ => None,
    };
    let entry = match v.get("playlist_entry_id") {
        Some(e) => e.as_u64(),
        None => None,
    };
    Some((name, entry))
}

/// State the event reader keeps between lines.
pub struct EventReader {
    /// Playlist entry id of the last `start-file` event.
    pub last_entry_id: Option<u64>,
}

/// What an event asks the application to do.
pub struct EventEffects {
    /// A file transition happened (for the presence detector).
    pub transitioned: bool,
    /// Time of a `playback-restart`, to be recorded as the last transition.
    pub transition_at_ms: Option<i64>,
    /// Startup delay of mpv, when it could be measured.
    pub startup_ms: Option<i64>,
    /// Id of the loop item now playing, to be remembered.
    pub last_played_id: Option<String>,
    /// `(item index, entry index)` to report as now playing.
    pub now_playing: Option<(usize, usize)>,
    /// Loop item whose speed and volume must be applied.
    pub apply_params_of: Option<usize>,
}

pub enum EventKind {
    EndFile,
    StartFile,
    PlaybackRestart,
    Other,
}

pub open spec fn kind_of(name: Option<Seq<char>>) -> EventKind {
    match name {
        Some(n) => if n == "end-file"@ {
            EventKind::EndFile
        } else if n == "start-file"@ {
            EventKind::StartFile
        } else if n == "playback-restart"@ {
            EventKind::PlaybackRestart
        } else {
            EventKind::Other
        },
        None => EventKind::Other,
    }
}

/// Playlist entry index of a (1-based) playlist entry id.
pub open spec fn entry_index(eid: u64) -> int {
    if eid >= 1 {
        eid - 1
    } else {
        0
    }
}

/// `(item, entry)` for playlist entry id `eid`, when the entry exists.
pub open spec fn now_playing_for(map: Seq<usize>, eid: u64) -> Option<(usize, usize)> {
    let idx = entry_index(eid);
    if idx < map.len() {
        Some((map[idx], idx as usize))
    } else {
        None
    }
}

/// Loop item played by entry id `eid`, when the entry and the item exist.
pub open spec fn item_for(map: Seq<usize>, items: Seq<VideoItem>, eid: u64) -> Option<usize> {
    let idx = entry_index(eid);
    if idx < map.len() && map[idx] < items.len() {
        Some(map[idx])
    } else {
        None
    }
}

pub open spec fn id_of_item(items: Seq<VideoItem>, i: Option<usize>) -> Option<Seq<char>> {
    match i {
        Some(k) => Some(items[k as int].id@),
        None => None,
    }
}

/// Startup delay: time from start to the first restart, when the start
/// time is known and the delay is positive and under 30 s.
pub open spec fn startup_of(now_ms: i64, started_ms: i64) -> Option<i64> {
    if started_ms > 0 && 0 < now_ms - started_ms < 30000 {
        Some((now_ms - started_ms) as i64)
    } else {
        None
    }
}

/// The effects of an event, as a relation between the reader's state
/// before (`last`) and after (`last2`) and the effects `e`.
pub open spec fn event_step(
    last: Option<u64>,
    name: Option<Seq<char>>,
    entry: Option<u64>,
    now_ms: i64,
    started_ms: i64,
    map: Seq<usize>,
    items: Seq<VideoItem>,
    last2: Option<u64>,
    e: EventEffects,
) -> bool {
    match kind_of(name) {
        EventKind::EndFile => {
            &&& last2 == last
            &&& e.transitioned
            &&& e.transition_at_ms is None
            &&& e.startup_ms is None
            &&& e.last_played_id is None
            &&& e.now_playing is None
            &&& e.apply_params_of is None
        },
        EventKind::StartFile => {
            &&& last2 == entry
            &&& !e.transitioned
            &&& e.transition_at_ms is None
            &&& e.startup_ms is None
            &&& e.apply_params_of is None
            &&& match entry {
                Some(eid) => {
                    &&& e.now_playing == now_playing_for(map, eid)
                    &&& opt_text(e.last_played_id) == id_of_item(items, item_for(map, items, eid))
                },
                None => e.now_playing is None && e.last_played_id is None,
            }
        },
        EventKind::PlaybackRestart => {
            let eid = match last {
                Some(x) => x,
                None => 1,
            };
            &&& last2 == last
            &&& e.transitioned
            &&& e.transition_at_ms == Some(now_ms)
            &&& e.startup_ms == startup_of(now_ms, started_ms)
            &&& e.now_playing == now_playing_for(map, eid)
            &&& e.apply_params_of == item_for(map, items, eid)
            &&& opt_text(e.last_played_id) == id_of_item(items, item_for(map, items, eid))
        },
        EventKind::Other => {
            &&& last2 == last
            &&& !e.transitioned
            &&& e.transition_at_ms is None
            &&& e.startup_ms is None
            &&& e.last_played_id is None
            &&& e.now_playing is None
            &&& e.apply_params_of is None
        },
    }
}

fn lookup_entry(map: &Vec<usize>, items: &Vec<VideoItem>, eid: u64) -> (r: (
    Option<(usize, usize)>,
    Option<usize>,
    Option<String>,
))
    ensures
        r.0 == now_playing_for(map@, eid),
        r.1 == item_for(map@, items@, eid),
        opt_text(r.2) == id_of_item(items@, item_for(map@, items@, eid)),
{
    let idx: u64 = if eid >= 1 {
        eid - 1
    } else {
        0
    };
    if idx < map.len() as u64 {
        let i = idx as usize;
        let item = map[i];
        if item < items.len() {
            (Some((item, i)), Some(item), Some(items[item].id.clone()))
        } else {
            (Some((item, i)), None, None)
        }
    } else {
        (None, None, None)
    }
}

fn is_named(name: &Option<String>, lit: &str) -> (b: bool)
    ensures
        b == (opt_text(*name) == Some(lit@)),
{
    match name {
        Some(n) => {
            let l = String::from_str(lit);
            *n == l
        },
        None => false,
    }
}

impl EventReader {
    pub fn new() -> (r: Self)
        ensures
            r.last_entry_id is None,
    {
        EventReader { last_entry_id: None }
    }

    /// Handles an event named `name` carrying playlist entry id `entry`,
    /// received at wall time `now_ms`, for a player started at
    /// `started_ms` (0 when unknown), playing `items` through the playlist
    /// `map`.
    pub fn handle_event(
        &mut self,
        name: &Option<String>,
        entry: Option<u64>,
        now_ms: i64,
        started_ms: i64,
        map: &Vec<usize>,
        items: &Vec<VideoItem>,
    ) -> (e: EventEffects)
        ensures
            event_step(
                old(self).last_entry_id,
                opt_text(*name),
                entry,
                now_ms,
                started_ms,
                map@,
                items@,
                final(self).last_entry_id,
                e,
            ),
    {
        let none = EventEffects {
            transitioned: false,
            transition_at_ms: None,
            startup_ms: None,
            last_played_id: None,
            now_playing: None,
            apply_params_of: None,
        };
        if is_named(name, "end-file") {
            return EventEffects { transitioned: true, ..none };
        }
        if is_named(name, "start-file") {
            self.last_entry_id = entry;
            match entry {
                Some(eid) => {
                    let (now_playing, _item, id) = lookup_entry(map, items, eid);
                    return EventEffects { now_playing, last_played_id: id, ..none };
                },
                None => {
                    return none;
                },
            }
        }
        if is_named(name, "playback-restart") {
            let startup_ms = if started_ms > 0 {
                let elapsed = (now_ms as i128) - (started_ms as i128);
                if 0 < elapsed && elapsed < 30000 {
                    Some(elapsed as i64)
                } else {
                    None
                }
            } else {
                None
            };
            let eid = match self.last_entry_id {
                Some(x) => x,
                None => 1,
            };
            let (now_playing, item, id) = lookup_entry(map, items, eid);
            return EventEffects {
                transitioned: true,
                transition_at_ms: Some(now_ms),
                startup_ms,
                last_played_id: id,
                now_playing,
                apply_params_of: item,
            };
        }
        none
    }

    /// Handles one line of mpv's event stream; lines that are not JSON have
    /// no effect.
    pub fn handle_line(
        &mut self,
        line: &str,
        now_ms: i64,
        started_ms: i64,
        map: &Vec<usize>,
        items: &Vec<VideoItem>,
    ) -> (e: EventEffects)
        ensures
            match json_event_fields(line@) {
                None => final(self).last_entry_id == old(self).last_entry_id && !e.transitioned
                    && e.transition_at_ms is None && e.startup_ms is None && e.last_played_id is None
                    && e.now_playing is None && e.apply_params_of is None,
                Some((name, entry)) => event_step(
                    old(self).last_entry_id,
                    name,
                    entry,
                    now_ms,
                    started_ms,
                    map@,
                    items@,
                    final(self).last_entry_id,
                    e,
                ),
            },
    {
        match event_fields(line) {
            Some((name, entry)) => self.handle_event(&name, entry, now_ms, started_ms, map, items),
            None => EventEffects {
                transitioned: false,
                transition_at_ms: None,
                startup_ms: None,
                last_played_id: None,
                now_playing: None,
                apply_params_of: None,
            },
        }
    }
}

} // verus!
