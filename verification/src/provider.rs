//! Backend policy: remote addressing, the capability split between the
//! proxying and the URL-redirecting backend variants, and the assembly of
//! the audio descriptor returned to the caller.
use vstd::prelude::*;

use crate::digits::dec_str;
use crate::error::ProviderError;

verus! {

/// The audio descriptor returned to the calling layer. `size` is the
/// transport-reported length of the served region — not necessarily the
/// full file size under a partial response.
pub struct AudioInfo {
    /// File extension of the audio format.
    pub extension: String,
    /// Bytes of the served region, as the transport reported them.
    pub size: usize,
    /// Playback duration in whole seconds; 0 when unknown.
    pub duration: u64,
}

/// Combines the transport-reported length and the extracted duration with
/// the fixed format label.
pub fn assemble_audio_info(size: usize, duration: u64) -> (info: AudioInfo)
    ensures
        info.extension@ == "flac"@,
        info.size == size,
        info.duration == duration,
{
    AudioInfo { extension: String::from_str("flac"), size, duration }
}

/// The two backend variants: one proxies bytes through this service, the
/// other hands out one-time download links and never streams itself.
#[derive(Clone, Copy, Debug, PartialEq, Eq, Structural)]
pub enum BackendKind {
    /// Streams remote bytes directly to the caller.
    Proxying,
    /// Requests a signed download link and redirects the caller to it.
    Redirecting,
}

/// Whether a caller probing for a redirect URL will get one from this
/// variant; on `false` the caller falls back to byte streaming.
pub fn redirects_to_url(kind: BackendKind) -> (r: bool)
    ensures
        r == (kind == BackendKind::Redirecting),
{
    match kind {
        BackendKind::Proxying => false,
        BackendKind::Redirecting => true,
    }
}

/// Neither backend variant streams cover bytes itself, so a cover stream
/// request is answered `Unsupported` — deterministically, never with an
/// empty or default resource.
pub fn cover_stream_plan(kind: BackendKind) -> (r: Result<(), ProviderError>)
    ensures
        r == Err::<(), ProviderError>(ProviderError::Unsupported),
{
    match kind {
        BackendKind::Proxying => Err(ProviderError::Unsupported),
        BackendKind::Redirecting => Err(ProviderError::Unsupported),
    }
}

/// The canonical remote path of one track: `{album}/{disc}/{track}`.
pub open spec fn spec_audio_path(album: Seq<char>, disc: u8, track: u8) -> Seq<char> {
    album + "/"@ + dec_str(disc as nat) + "/"@ + dec_str(track as nat)
}

/// Builds the track path the proxying backend requests.
pub fn audio_path(album_id: &str, disc_id: u8, track_id: u8) -> (r: String)
    requires
        disc_id >= 1,
        track_id >= 1,
    ensures
        r@ == spec_audio_path(album_id@, disc_id, track_id),
{
    let mut s = String::from_str(album_id);
    s.append("/");
    let disc = crate::digits::u64_to_string(disc_id as u64);
    s.append(disc.as_str());
    s.append("/");
    let track = crate::digits::u64_to_string(track_id as u64);
    s.append(track.as_str());
    proof {
        assert(s@ =~= spec_audio_path(album_id@, disc_id, track_id));
    }
    s
}

/// The track path with the literal filename the redirecting backend's
/// protocol requires: `{album}/{disc}/{track}.flac`.
pub open spec fn spec_audio_file_path(album: Seq<char>, disc: u8, track: u8) -> Seq<char> {
    spec_audio_path(album, disc, track) + ".flac"@
}

pub fn audio_file_path(album_id: &str, disc_id: u8, track_id: u8) -> (r: String)
    requires
        disc_id >= 1,
        track_id >= 1,
    ensures
        r@ == spec_audio_file_path(album_id@, disc_id, track_id),
{
    let mut s = audio_path(album_id, disc_id, track_id);
    s.append(".flac");
    proof {
        assert(s@ =~= spec_audio_file_path(album_id@, disc_id, track_id));
    }
    s
}

/// The remote path of an album cover: `{album}/{disc-or-1}/cover.jpg`,
/// with the disc defaulting to 1 when not supplied.
pub open spec fn spec_cover_path(album: Seq<char>, disc: Option<u8>) -> Seq<char> {
    album + "/"@ + dec_str(
        match disc {
            Some(d) => d as nat,
            None => 1,
        },
    ) + "/cover.jpg"@
}

pub fn cover_path(album_id: &str, disc_id: Option<u8>) -> (r: String)
    requires
        disc_id matches Some(d) ==> d >= 1,
    ensures
        r@ == spec_cover_path(album_id@, disc_id),
{
    let mut s = String::from_str(album_id);
    s.append("/");
    let disc = crate::digits::u64_to_string(
        match disc_id {
            Some(d) => d as u64,
            None => 1,
        },
    );
    s.append(disc.as_str());
    s.append("/cover.jpg");
    proof {
        assert(s@ =~= spec_cover_path(album_id@, disc_id));
    }
    s
}

/// The immutable configuration snapshot of the URL-redirecting backend:
/// API token, service base URL and repository id, read-only inputs fixed
/// at construction.
pub struct SeafileConfig {
    pub token: String,
    pub base: String,
    pub repo_id: String,
}

impl SeafileConfig {
    pub fn new(token: String, base: String, repo_id: String) -> (c: Self)
        ensures
            c.token@ == token@,
            c.base@ == base@,
            c.repo_id@ == repo_id@,
    {
        SeafileConfig { token, base, repo_id }
    }

    /// The directory-listing request URL, filtered server-side to
    /// directory entries: `{base}/api2/repos/{repo}/dir/?t=d`.
    pub fn dir_list_url(&self) -> (r: String)
        ensures
            r@ == self.base@ + "/api2/repos/"@ + self.repo_id@ + "/dir/?t=d"@,
    {
        let mut s = String::from_str(self.base.as_str());
        s.append("/api2/repos/");
        s.append(self.repo_id.as_str());
        s.append("/dir/?t=d");
        proof {
            assert(s@ =~= self.base@ + "/api2/repos/"@ + self.repo_id@ + "/dir/?t=d"@);
        }
        s
    }

    /// The request URL asking the service for a reusable one-time download
    /// link of `path`: `{base}/api2/repos/{repo}/file/?p={path}&reuse=1`.
    pub fn file_link_url(&self, path: &str) -> (r: String)
        ensures
            r@ == self.base@ + "/api2/repos/"@ + self.repo_id@ + "/file/?p="@ + path@
                + "&reuse=1"@,
    {
        let mut s = String::from_str(self.base.as_str());
        s.append("/api2/repos/");
        s.append(self.repo_id.as_str());
        s.append("/file/?p=");
        s.append(path);
        s.append("&reuse=1");
        proof {
            assert(s@ =~= self.base@ + "/api2/repos/"@ + self.repo_id@ + "/file/?p="@ + path@
                + "&reuse=1"@);
        }
        s
    }

    /// The authorization header value sent with every request:
    /// `Token {token}`.
    pub fn auth_header(&self) -> (r: String)
        ensures
            r@ == "Token "@ + self.token@,
    {
        let mut s = String::from_str("Token ");
        s.append(self.token.as_str());
        s
    }

    /// Refreshes backend session state. The snapshot holds no session
    /// state, so there is nothing to refresh: the configuration is left
    /// exactly as it was, and in-flight requests that captured it are
    /// unaffected. Idempotent and always acknowledged.
    pub fn reload(&mut self) -> (r: Result<(), ProviderError>)
        ensures
            *final(self) == *old(self),
            r == Ok::<(), ProviderError>(()),
    {
        Ok(())
    }
}

/// `s` with every trailing `/` removed.
pub open spec fn trim_trailing_slashes(s: Seq<char>) -> Seq<char>
    decreases s.len(),
{
    if s.len() > 0 && s.last() == '/' {
        trim_trailing_slashes(s.drop_last())
    } else {
        s
    }
}

/// The position of the last occurrence of `c` in `s`, if any.
pub open spec fn find_last_char(s: Seq<char>, c: char) -> Option<int>
    decreases s.len(),
{
    if s.len() == 0 {
        None
    } else if s.last() == c {
        Some(s.len() - 1)
    } else {
        find_last_char(s.drop_last(), c)
    }
}

/// The album identifier a directory-listing entry's `href` names: the last
/// path segment once trailing slashes are dropped; none when no separator
/// is left, in which case the entry is skipped.
pub open spec fn spec_album_from_href(s: Seq<char>) -> Option<Seq<char>> {
    let t = trim_trailing_slashes(s);
    match find_last_char(t, '/') {
        Some(i) => Some(t.skip(i + 1)),
        None => None,
    }
}

/// Extracts the album identifier from one directory-listing `href`.
pub fn album_from_href(href: &str) -> (r: Option<String>)
    ensures
        match r {
            Some(a) => spec_album_from_href(href@) == Some(a@),
            None => spec_album_from_href(href@) is None,
        },
{
    let len = href.unicode_len();
    let mut e: usize = len;
    proof {
        assert(href@.take(len as int) =~= href@);
    }
    while e > 0 && href.get_char(e - 1) == '/'
        invariant
            0 <= e <= len,
            len == href@.len(),
            trim_trailing_slashes(href@) == trim_trailing_slashes(href@.take(e as int)),
        decreases e,
    {
        proof {
            assert(href@.take(e as int).last() == href@[e - 1]);
            assert(href@.take(e as int).drop_last() =~= href@.take(e - 1));
        }
        e -= 1;
    }
    proof {
        if e > 0 {
            assert(href@.take(e as int).last() == href@[e - 1]);
        }
        assert(trim_trailing_slashes(href@) == href@.take(e as int));
    }
    let ghost t = trim_trailing_slashes(href@);
    let mut k: usize = e;
    proof {
        assert(href@.take(e as int).take(e as int) =~= href@.take(e as int));
    }
    while k > 0 && href.get_char(k - 1) != '/'
        invariant
            0 <= k <= e <= len,
            len == href@.len(),
            t == href@.take(e as int),
            find_last_char(t, '/') == find_last_char(href@.take(e as int).take(k as int), '/'),
        decreases k,
    {
        proof {
            let p = href@.take(e as int).take(k as int);
            assert(p.last() == href@[k - 1]);
            assert(p.drop_last() =~= href@.take(e as int).take(k - 1));
        }
        k -= 1;
    }
    if k == 0 {
        proof {
            assert(href@.take(e as int).take(0) =~= Seq::<char>::empty());
        }
        None
    } else {
        proof {
            let p = href@.take(e as int).take(k as int);
            assert(p.last() == href@[k - 1]);
            assert(find_last_char(t, '/') == Some(k - 1));
            assert(t.skip(k as int) =~= href@.subrange(k as int, e as int));
        }
        let seg = href.substring_char(k, e);
        Some(String::from_str(seg))
    }
}

#[verifier::external_type_specification]
#[verifier::external_body]
pub struct ExIoError(std::io::Error);

#[verifier::external_type_specification]
#[verifier::external_body]
pub struct ExReqwestError(reqwest_dav::re_exports::reqwest::Error);

/// Relies on `std::io::Error::new`: it wraps the given transport error
/// into an I/O error of kind `Other`.
#[verifier::external_body]
fn wrap_transport_error(e: reqwest_dav::re_exports::reqwest::Error) -> std::io::Error {
    std::io::Error::new(std::io::ErrorKind::Other, e)
}

/// Adapts the result of reading one streamed chunk to the I/O error domain
/// the stream consumer expects: an `Ok` chunk passes through untouched, a
/// transport error is wrapped as an I/O error.
pub fn to_io_error<T>(r: Result<T, reqwest_dav::re_exports::reqwest::Error>) -> (out: Result<
    T,
    std::io::Error,
>)
    ensures
        out is Ok <==> r is Ok,
        out matches Ok(v) ==> (r matches Ok(t) && v == t),
{
    match r {
        Ok(t) => Ok(t),
        Err(e) => Err(wrap_transport_error(e)),
    }
}

} // verus!
