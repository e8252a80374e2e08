//! The thumbnail cache: how its entries are named, which of them the
//! one-shot legacy-size purge removes, and which way a thumbnail is made.
//!
//! Entries live in one directory per repo, as `<key>_<size>.<ext>`, where the
//! key is `thumb_` and the first 32 hex digits of SHA-256(repo id ++ path).

use vstd::prelude::*;
use vstd::utf8::encode_utf8;
use crate::crypto::{hex_encode, hex_encode_spec, lemma_hex_encode_shape, sha256, sha256_digest, utf8_bytes};
use crate::error::{AppError, is_not_found, not_found};
use crate::text::{
    chars_of, decimal, last_index, last_index_exec, owned, parse_u32, parse_u32_spec, push_char,
    push_chars, push_decimal, push_str, slice_range,
};

verus! {

// ─── Retained sizes and the purge marker ─────────────────────────────────

/// The thumbnail sizes the UI requests, smallest first. Cache entries at any
/// other size can no longer be reached.
pub open spec fn retained_sizes() -> Seq<u32> {
    seq![48u32, 640u32]
}

/// The retained sizes as a vector.
pub fn retained_thumbnail_sizes() -> (v: Vec<u32>)
    ensures
        v@ == retained_sizes(),
{
    let mut v: Vec<u32> = Vec::new();
    v.push(48);
    v.push(640);
    proof {
        assert(v@ =~= retained_sizes());
    }
    v
}

/// Whether the UI still requests thumbnails of this size.
pub fn is_retained_size(size: u32) -> (b: bool)
    ensures
        b == retained_sizes().contains(size),
{
    proof {
        assert(retained_sizes()[0] == 48u32);
        assert(retained_sizes()[1] == 640u32);
    }
    size == 48 || size == 640
}

/// Decimal renderings of `sizes`, joined by `_`.
pub open spec fn joined_sizes(sizes: Seq<u32>) -> Seq<char>
    decreases sizes.len(),
{
    if sizes.len() == 0 {
        Seq::empty()
    } else if sizes.len() == 1 {
        decimal(sizes[0] as nat)
    } else {
        joined_sizes(sizes.drop_last()) + seq!['_'] + decimal(sizes.last() as nat)
    }
}

/// The marker file's name: it carries the retained sizes, so a change of
/// that set re-arms the purge by itself.
pub open spec fn legacy_purge_marker_spec() -> Seq<char> {
    ".legacy_sizes_purged_"@ + joined_sizes(retained_sizes())
}

/// Name of the marker file recording that the purge ran for the current set
/// of retained sizes.
pub fn legacy_purge_marker() -> (m: String)
    ensures
        m@ == legacy_purge_marker_spec(),
{
    let sizes = retained_thumbnail_sizes();
    let mut m = String::new();
    push_str(&mut m, ".legacy_sizes_purged_");
    let ghost head = m@;
    let mut i: usize = 0;
    proof {
        assert(sizes@.take(0) =~= Seq::<u32>::empty());
        assert(head + joined_sizes(Seq::<u32>::empty()) =~= head);
    }
    while i < sizes.len()
        invariant
            i <= sizes@.len(),
            head == ".legacy_sizes_purged_"@,
            m@ == head + joined_sizes(sizes@.take(i as int)),
        decreases sizes@.len() - i,
    {
        let ghost before = m@;
        if i > 0 {
            push_char(&mut m, '_');
        }
        push_decimal(&mut m, sizes[i] as u64);
        proof {
            let t = sizes@.take(i + 1);
            assert(t.drop_last() =~= sizes@.take(i as int));
            assert(t.last() == sizes@[i as int]);
            if i == 0 {
                assert(t.len() == 1);
                assert(m@ =~= head + joined_sizes(t));
            } else {
                assert(m@ =~= head + joined_sizes(t));
            }
        }
        i = i + 1;
    }
    proof {
        assert(sizes@.take(i as int) =~= sizes@);
    }
    m
}

// ─── Reading a cache file name ───────────────────────────────────────────

/// A cache file name without its extension: everything before the last `.`,
/// or the whole name when it has none.
pub open spec fn cache_stem(name: Seq<char>) -> Seq<char> {
    match last_index(name, '.') {
        Some(i) => name.take(i),
        None => name,
    }
}

/// The size a cache file name carries: `…_<size>.<ext>` (the extension may
/// be absent). `None` when the stem has no `_` or what follows the last one
/// is not a `u32`.
pub open spec fn cache_file_size_spec(name: Seq<char>) -> Option<u32> {
    let stem = cache_stem(name);
    match last_index(stem, '_') {
        Some(j) => parse_u32_spec(stem.skip(j + 1)),
        None => None,
    }
}

/// Size encoded in a cache file name, covering both the hashed scheme
/// (`thumb_<hash>_640.jpg`) and the older path-based one
/// (`Field_Photos_pine_256.png`).
pub fn cache_file_size(name: &str) -> (r: Option<u32>)
    ensures
        r == cache_file_size_spec(name@),
{
    let v = chars_of(name);
    let stem_len = match last_index_exec(v.as_slice(), '.') {
        Some(i) => i,
        None => v.len(),
    };
    let stem = slice_range(v.as_slice(), 0, stem_len);
    proof {
        if last_index(v@, '.') is None {
            assert(v@.subrange(0, v@.len() as int) =~= v@);
        }
        assert(stem@ == cache_stem(name@));
    }
    match last_index_exec(stem.as_slice(), '_') {
        Some(j) => {
            let digits = slice_range(stem.as_slice(), j + 1, stem.len());
            proof {
                assert(digits@ =~= stem@.skip(j + 1));
            }
            parse_u32(digits.as_slice())
        },
        None => None,
    }
}

// ─── The purge, entry by entry ───────────────────────────────────────────

/// What the purge does with one entry of a repo's cache directory.
#[derive(Clone, Copy, Debug, PartialEq, Eq)]
pub enum PurgeVerdict {
    /// Not a plain file: never descended into, and it keeps its directory.
    Nested,
    /// A file whose name carries no size: left alone, and reported.
    Unrecognized,
    /// A file at a size the UI still requests.
    Retained,
    /// A file at a size nothing requests any more: to be removed.
    Stale,
}

/// The verdict on an entry, from whether it is a plain file and its name.
pub open spec fn purge_verdict(is_file: bool, name: Seq<char>) -> PurgeVerdict {
    if !is_file {
        PurgeVerdict::Nested
    } else {
        match cache_file_size_spec(name) {
            None => PurgeVerdict::Unrecognized,
            Some(size) => if retained_sizes().contains(size) {
                PurgeVerdict::Retained
            } else {
                PurgeVerdict::Stale
            },
        }
    }
}

/// Decide what the purge does with one directory entry.
pub fn classify_cache_entry(is_file: bool, name: &str) -> (v: PurgeVerdict)
    ensures
        v == purge_verdict(is_file, name@),
{
    if !is_file {
        return PurgeVerdict::Nested;
    }
    match cache_file_size(name) {
        None => PurgeVerdict::Unrecognized,
        Some(size) => if is_retained_size(size) {
            PurgeVerdict::Retained
        } else {
            PurgeVerdict::Stale
        },
    }
}

/// What one pass of the purge did, for the startup log.
#[derive(Clone, Copy, Debug, Default, PartialEq, Eq)]
pub struct ThumbnailCachePurge {
    /// False when the marker showed a previous pass had already run.
    pub ran: bool,
    pub files_removed: u64,
    pub bytes_freed: u64,
    pub dirs_removed: u64,
    /// Files whose name carries no trailing size, left alone.
    pub unrecognized: u64,
}

/// The summary line of a purge report.
pub open spec fn purge_summary(p: ThumbnailCachePurge) -> Seq<char> {
    if !p.ran {
        "already purged, skipped"@
    } else {
        "removed "@ + decimal(p.files_removed as nat) + " cache files ("@ + decimal(
            (p.bytes_freed / 1024) as nat,
        ) + " KiB) for sizes the UI no longer requests, "@ + decimal(p.dirs_removed as nat)
            + " empty directories"@ + if p.unrecognized > 0 {
            ", "@ + decimal(p.unrecognized as nat) + " unrecognized names left alone"@
        } else {
            Seq::empty()
        }
    }
}

impl ThumbnailCachePurge {
    /// The report of a pass that found the marker and did nothing.
    pub fn skipped() -> (p: Self)
        ensures
            !p.ran,
            p.files_removed == 0 && p.bytes_freed == 0 && p.dirs_removed == 0 && p.unrecognized == 0,
    {
        ThumbnailCachePurge { ran: false, files_removed: 0, bytes_freed: 0, dirs_removed: 0, unrecognized: 0 }
    }

    /// The report of a pass that is about to sweep the cache.
    pub fn started() -> (p: Self)
        ensures
            p.ran,
            p.files_removed == 0 && p.bytes_freed == 0 && p.dirs_removed == 0 && p.unrecognized == 0,
    {
        ThumbnailCachePurge { ran: true, files_removed: 0, bytes_freed: 0, dirs_removed: 0, unrecognized: 0 }
    }

    /// Account for one directory entry, given its verdict and, for a stale
    /// file, the size of what was removed (`None` when removing it failed).
    /// Returns whether the entry is still there, which keeps its directory.
    pub fn account(&mut self, verdict: PurgeVerdict, removed: Option<u64>) -> (stays: bool)
        requires
            old(self).unrecognized < u64::MAX,
            old(self).files_removed < u64::MAX,
            removed matches Some(b) ==> old(self).bytes_freed + b <= u64::MAX,
        ensures
            stays == !(verdict == PurgeVerdict::Stale && removed is Some),
            final(self).ran == old(self).ran,
            final(self).dirs_removed == old(self).dirs_removed,
            final(self).unrecognized == old(self).unrecognized + if verdict
                == PurgeVerdict::Unrecognized {
                1int
            } else {
                0int
            },
            final(self).files_removed == old(self).files_removed + if verdict == PurgeVerdict::Stale
                && removed is Some {
                1int
            } else {
                0int
            },
            final(self).bytes_freed == old(self).bytes_freed + match removed {
                Some(b) => if verdict == PurgeVerdict::Stale {
                    b as int
                } else {
                    0int
                },
                None => 0int,
            },
    {
        match verdict {
            PurgeVerdict::Unrecognized => {
                self.unrecognized = self.unrecognized + 1;
                true
            },
            PurgeVerdict::Stale => match removed {
                Some(bytes) => {
                    self.files_removed = self.files_removed + 1;
                    self.bytes_freed = self.bytes_freed + bytes;
                    false
                },
                None => true,
            },
            _ => true,
        }
    }

    /// Account for a repo directory that the sweep emptied and removed.
    pub fn note_dir_removed(&mut self)
        requires
            old(self).dirs_removed < u64::MAX,
        ensures
            *final(self) == (ThumbnailCachePurge { dirs_removed: (old(self).dirs_removed + 1) as u64, ..*old(self) }),
    {
        self.dirs_removed = self.dirs_removed + 1;
    }

    /// One line for the startup log.
    pub fn summary(&self) -> (s: String)
        ensures
            s@ == purge_summary(*self),
    {
        if !self.ran {
            return owned("already purged, skipped");
        }
        let mut s = String::new();
        push_str(&mut s, "removed ");
        push_decimal(&mut s, self.files_removed);
        push_str(&mut s, " cache files (");
        push_decimal(&mut s, self.bytes_freed / 1024);
        push_str(&mut s, " KiB) for sizes the UI no longer requests, ");
        push_decimal(&mut s, self.dirs_removed);
        push_str(&mut s, " empty directories");
        if self.unrecognized > 0 {
            push_str(&mut s, ", ");
            push_decimal(&mut s, self.unrecognized);
            push_str(&mut s, " unrecognized names left alone");
        }
        proof {
            if self.unrecognized > 0 {
                assert(s@ =~= purge_summary(*self));
            } else {
                assert(s@ =~= purge_summary(*self));
            }
        }
        s
    }
}

// ─── Where a thumbnail comes from ────────────────────────────────────────

/// Largest source file decoded in-process for a thumbnail (32 MiB).
pub const MAX_THUMBNAIL_SOURCE: i64 = 33554432;

/// What kind of media a ffmpeg-based thumbnail extracts.
#[derive(Clone, Copy, Debug, PartialEq, Eq)]
pub enum MediaKind {
    /// A frame from the video stream.
    Video,
    /// The embedded cover art of an audio file.
    Audio,
    /// A still image that only ffmpeg decodes (HEIC, HEIF, AVIF).
    Image,
}

/// Source-size cap for ffmpeg thumbnails: 256 MiB for still images,
/// 512 MiB for video and audio.
pub open spec fn max_ffmpeg_source_spec(kind: MediaKind) -> int {
    match kind {
        MediaKind::Image => 268435456,
        _ => 536870912,
    }
}

/// Source-size cap for an ffmpeg thumbnail of this kind.
pub fn max_ffmpeg_source(kind: MediaKind) -> (n: i64)
    ensures
        n == max_ffmpeg_source_spec(kind),
{
    match kind {
        MediaKind::Image => 268435456,
        MediaKind::Video | MediaKind::Audio => 536870912,
    }
}

/// How a thumbnail is produced.
#[derive(Clone, Copy, Debug, PartialEq, Eq)]
pub enum ThumbnailRoute {
    /// Decode the image bytes in-process.
    Decode,
    /// Extract a picture with ffmpeg.
    Media(MediaKind),
}

/// The route for a file, from how its extension classifies and its size:
/// none when no route takes it or it is over the route's cap.
pub open spec fn thumbnail_route_spec(
    is_image: bool,
    is_ffmpeg_image: bool,
    is_video: bool,
    is_audio: bool,
    source_size: i64,
) -> Option<ThumbnailRoute> {
    if !is_image && !is_ffmpeg_image && !is_video && !is_audio {
        None
    } else if is_image {
        if source_size > MAX_THUMBNAIL_SOURCE {
            None
        } else {
            Some(ThumbnailRoute::Decode)
        }
    } else {
        let kind = if is_video {
            MediaKind::Video
        } else if is_ffmpeg_image {
            MediaKind::Image
        } else {
            MediaKind::Audio
        };
        if source_size > max_ffmpeg_source_spec(kind) {
            None
        } else {
            Some(ThumbnailRoute::Media(kind))
        }
    }
}

/// Choose how to make a thumbnail; `NotFound("thumbnail not available")`
/// when the file has none.
pub fn choose_thumbnail_route(
    is_image: bool,
    is_ffmpeg_image: bool,
    is_video: bool,
    is_audio: bool,
    source_size: i64,
) -> (r: Result<ThumbnailRoute, AppError>)
    ensures
        match thumbnail_route_spec(is_image, is_ffmpeg_image, is_video, is_audio, source_size) {
            Some(route) => r == Ok::<ThumbnailRoute, AppError>(route),
            None => r is Err && is_not_found(r->Err_0, "thumbnail not available"@),
        },
{
    if !is_image && !is_ffmpeg_image && !is_video && !is_audio {
        return Err(not_found("thumbnail not available"));
    }
    if is_image {
        if source_size > MAX_THUMBNAIL_SOURCE {
            return Err(not_found("thumbnail not available"));
        }
        return Ok(ThumbnailRoute::Decode);
    }
    let kind = if is_video {
        MediaKind::Video
    } else if is_ffmpeg_image {
        MediaKind::Image
    } else {
        MediaKind::Audio
    };
    if source_size > max_ffmpeg_source(kind) {
        return Err(not_found("thumbnail not available"));
    }
    Ok(ThumbnailRoute::Media(kind))
}

/// A cached thumbnail is served when it was made from a source no older
/// than the current one and its file is still on disk.
pub fn cached_thumbnail_is_fresh(cached_source_mtime: i64, current_mtime: i64, file_present: bool) -> (b: bool)
    ensures
        b == (cached_source_mtime >= current_mtime && file_present),
{
    cached_source_mtime >= current_mtime && file_present
}

// ─── Paths and names ─────────────────────────────────────────────────────

/// A repo path in absolute form: `/` for the empty path, otherwise with a
/// leading `/` added when it lacks one.
pub open spec fn absolute_path_spec(path: Seq<char>) -> Seq<char> {
    if path.len() == 0 {
        seq!['/']
    } else if path[0] == '/' {
        path
    } else {
        seq!['/'] + path
    }
}

/// The path a thumbnail request is cached under.
pub fn normalize_thumbnail_path(path: &str) -> (out: String)
    ensures
        out@ == absolute_path_spec(path@),
{
    let v = chars_of(path);
    if v.len() > 0 && v[0] == '/' {
        return owned(path);
    }
    let mut out = String::new();
    push_char(&mut out, '/');
    push_chars(&mut out, v.as_slice());
    proof {
        if v@.len() == 0 {
            assert(out@ =~= seq!['/']);
        }
    }
    out
}

/// The path whose cache entries a deletion clears: `/` for the empty path,
/// the path itself when absolute, and none for a relative path.
pub open spec fn cleanup_path_spec(path: Seq<char>) -> Option<Seq<char>> {
    if path.len() == 0 {
        Some(seq!['/'])
    } else if path[0] == '/' {
        Some(path)
    } else {
        None
    }
}

/// The path to clear the cache of, when a file is deleted.
pub fn cleanup_path(path: &str) -> (out: Option<String>)
    ensures
        match out {
            Some(p) => cleanup_path_spec(path@) == Some(p@),
            None => cleanup_path_spec(path@) is None,
        },
{
    let v = chars_of(path);
    if v.len() == 0 {
        let mut out = String::new();
        push_char(&mut out, '/');
        proof {
            assert(out@ =~= seq!['/']);
        }
        Some(out)
    } else if v[0] == '/' {
        Some(owned(path))
    } else {
        None
    }
}

/// The last component of a normalized path, or `file` when it has no `/`.
pub open spec fn file_name_spec(path: Seq<char>) -> Seq<char> {
    match last_index(path, '/') {
        Some(i) => path.skip(i + 1),
        None => "file"@,
    }
}

/// The file name a thumbnail request is for.
pub fn file_name_of(path: &str) -> (out: String)
    ensures
        out@ == file_name_spec(path@),
{
    let v = chars_of(path);
    match last_index_exec(v.as_slice(), '/') {
        Some(i) => {
            let n = v.len();
            let name = slice_range(v.as_slice(), i + 1, n);
            let mut out = String::new();
            push_chars(&mut out, name.as_slice());
            proof {
                assert(name@ =~= v@.skip(i + 1));
            }
            out
        },
        None => owned("file"),
    }
}

/// The cache key of a path: `thumb_` and the first 32 hex digits of
/// SHA-256 over the repo id's bytes followed by the path's.
pub open spec fn thumbnail_key_spec(repo_id: Seq<char>, path: Seq<char>) -> Seq<char> {
    "thumb_"@ + hex_encode_spec(sha256(encode_utf8(repo_id) + encode_utf8(path))).take(32)
}

/// The deterministic, collision-free name prefix of a path's thumbnails.
pub fn thumbnail_key(repo_id: &str, path: &str) -> (k: String)
    ensures
        k@ == thumbnail_key_spec(repo_id@, path@),
{
    let a = utf8_bytes(repo_id);
    let b = utf8_bytes(path);
    let mut data: Vec<u8> = Vec::new();
    let mut i: usize = 0;
    while i < a.len()
        invariant
            i <= a@.len(),
            data@ == a@.take(i as int),
        decreases a@.len() - i,
    {
        data.push(a[i]);
        i = i + 1;
        proof {
            assert(data@ =~= a@.take(i as int));
        }
    }
    let mut j: usize = 0;
    proof {
        assert(a@.take(i as int) =~= a@);
    }
    while j < b.len()
        invariant
            j <= b@.len(),
            data@ == a@ + b@.take(j as int),
        decreases b@.len() - j,
    {
        data.push(b[j]);
        j = j + 1;
        proof {
            assert(data@ =~= a@ + b@.take(j as int));
        }
    }
    proof {
        assert(b@.take(j as int) =~= b@);
    }
    let digest = sha256_digest(data.as_slice());
    let hex = hex_encode(digest.as_slice());
    proof {
        lemma_hex_encode_shape(digest@);
    }
    let hv = chars_of(hex.as_str());
    let head = slice_range(hv.as_slice(), 0, 32);
    let mut k = String::new();
    push_str(&mut k, "thumb_");
    push_chars(&mut k, head.as_slice());
    proof {
        assert(head@ =~= hex_encode_spec(digest@).take(32));
    }
    k
}

/// A cache file name: `<key>_<size>.<ext>`.
pub open spec fn cache_file_name_spec(key: Seq<char>, size: u32, ext: Seq<char>) -> Seq<char> {
    key + seq!['_'] + decimal(size as nat) + seq!['.'] + ext
}

/// The name of a cached thumbnail of the given key, size and container.
pub fn cache_file_name(key: &str, size: u32, ext: &str) -> (out: String)
    ensures
        out@ == cache_file_name_spec(key@, size, ext@),
{
    let mut out = owned(key);
    push_char(&mut out, '_');
    push_decimal(&mut out, size as u64);
    push_char(&mut out, '.');
    push_str(&mut out, ext);
    proof {
        assert(out@ =~= cache_file_name_spec(key@, size, ext@));
    }
    out
}

/// `s` without leading `c`s.
pub open spec fn strip_start_char(s: Seq<char>, c: char) -> Seq<char>
    decreases s.len(),
{
    if s.len() > 0 && s[0] == c {
        strip_start_char(s.drop_first(), c)
    } else {
        s
    }
}

/// `s` without trailing `c`s.
pub open spec fn strip_end_char(s: Seq<char>, c: char) -> Seq<char>
    decreases s.len(),
{
    if s.len() > 0 && s.last() == c {
        strip_end_char(s.drop_last(), c)
    } else {
        s
    }
}

/// The name the older cache scheme derived from a path: slashes trimmed at
/// both ends, the others turned into underscores.
pub open spec fn path_file_stem_spec(path: Seq<char>) -> Seq<char> {
    let t = strip_end_char(strip_start_char(path, '/'), '/');
    Seq::new(t.len(), |i: int| if t[i] == '/' { '_' } else { t[i] })
}

proof fn lemma_strip_start_skip(s: Seq<char>, c: char, k: int)
    requires
        0 <= k <= s.len(),
        forall|j: int| 0 <= j < k ==> #[trigger] s[j] == c,
    ensures
        strip_start_char(s, c) == strip_start_char(s.skip(k), c),
    decreases k,
{
    if k > 0 {
        assert(s[0] == c);
        assert(s.drop_first().skip(k - 1) =~= s.skip(k));
        assert forall|j: int| 0 <= j < k - 1 implies #[trigger] s.drop_first()[j] == c by {
            assert(s.drop_first()[j] == s[j + 1]);
        }
        lemma_strip_start_skip(s.drop_first(), c, k - 1);
    } else {
        assert(s.skip(0) =~= s);
    }
}

proof fn lemma_strip_end_take(s: Seq<char>, c: char, k: int)
    requires
        0 <= k <= s.len(),
        forall|j: int| k <= j < s.len() ==> #[trigger] s[j] == c,
    ensures
        strip_end_char(s, c) == strip_end_char(s.take(k), c),
    decreases s.len() - k,
{
    if k < s.len() {
        assert(s.last() == c);
        assert(s.drop_last().take(k) =~= s.take(k));
        lemma_strip_end_take(s.drop_last(), c, k);
    } else {
        assert(s.take(s.len() as int) =~= s);
    }
}

/// The older scheme's name for a path: `trim_matches('/')`, then every `/`
/// replaced by `_`.
pub fn normalize_path_for_file(path: &str) -> (out: String)
    ensures
        out@ == path_file_stem_spec(path@),
{
    let v = chars_of(path);
    let mut start: usize = 0;
    while start < v.len() && v[start] == '/'
        invariant
            start <= v@.len(),
            forall|j: int| 0 <= j < start ==> #[trigger] v@[j] == '/',
        decreases v@.len() - start,
    {
        start = start + 1;
    }
    let mut end: usize = v.len();
    while end > start && v[end - 1] == '/'
        invariant
            start <= end <= v@.len(),
            forall|j: int| end <= j < v@.len() ==> #[trigger] v@[j] == '/',
        decreases end,
    {
        end = end - 1;
    }
    let ghost t = v@.subrange(start as int, end as int);
    proof {
        lemma_strip_start_skip(v@, '/', start as int);
        let u = v@.skip(start as int);
        if start < v@.len() {
            assert(u[0] != '/');
        }
        assert(strip_start_char(u, '/') == u);
        assert forall|j: int| end - start <= j < u.len() implies #[trigger] u[j] == '/' by {
            assert(u[j] == v@[start + j]);
        }
        lemma_strip_end_take(u, '/', end - start);
        let w = u.take(end - start);
        if end > start {
            assert(w.last() == v@[end - 1]);
        }
        assert(strip_end_char(w, '/') == w);
        assert(w =~= t);
    }
    let mut out = String::new();
    let mut i = start;
    while i < end
        invariant
            start <= i <= end <= v@.len(),
            t == v@.subrange(start as int, end as int),
            out@ == Seq::new(
                (i - start) as nat,
                |k: int| if t[k] == '/' { '_' } else { t[k] },
            ),
        decreases end - i,
    {
        let c = v[i];
        if c == '/' {
            push_char(&mut out, '_');
        } else {
            push_char(&mut out, c);
        }
        i = i + 1;
        proof {
            assert(out@ =~= Seq::new(
                (i - start) as nat,
                |k: int| if t[k] == '/' { '_' } else { t[k] },
            ));
        }
    }
    out
}

/// The name an entry had under the older cache scheme:
/// `<path stem>_<size>.png`.
pub fn legacy_cache_file_name(path: &str, size: u32) -> (out: String)
    ensures
        out@ == path_file_stem_spec(path@) + seq!['_'] + decimal(size as nat) + ".png"@,
{
    let mut out = normalize_path_for_file(path);
    push_char(&mut out, '_');
    push_decimal(&mut out, size as u64);
    push_str(&mut out, ".png");
    proof {
        assert(out@ =~= path_file_stem_spec(path@) + seq!['_'] + decimal(size as nat) + ".png"@);
    }
    out
}

} // verus!
